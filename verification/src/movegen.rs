//! Pseudo-legal move generation: for the side to move, walk each piece
//! kind in a fixed order (pawns, knights, king, castling, bishops, rooks,
//! queens), extract source squares from a working copy of the piece's
//! bitset, and classify each table or ray destination as quiet or capture.
//! The output does not yet exclude moves that leave the mover's own king
//! attacked; `make_move` decides that.

use vstd::prelude::*;
use crate::bitboard::Bitboard;
use crate::bitboard::bit64;
use crate::bitboard::lemma_bit64_ops;
use crate::bitboard::lemma_clear_bit_decreases;
use crate::bitboard::lemma_lsb_props;
use crate::bitboard::lsb_index;
use crate::bitboard::squares_of;
use crate::board::Board;
use crate::board::BoardV;
use crate::board::all_occ;
use crate::board::core_of;
use crate::board::lemma_board_view;
use crate::board::lemma_occ_bit;
use crate::board::side_occ;
use crate::color::Color;
use crate::color::color_index;
use crate::color::opposite;
use crate::board::attacked_by;
use crate::move_tables::MoveTables;
use crate::move_tables::king_attack_entry;
use crate::move_tables::knight_attack_entry;
use crate::move_tables::pawn_attack_entry;
use crate::piece::Piece;
use crate::piece_move::Move;
use crate::piece_move::MoveList;
use crate::piece_move::SpecialMove;
use crate::piece_move::encode_move;
use crate::piece_move::move_code;
use crate::piece_move::move_origin;
use crate::piece_move::move_target;
use crate::piece_move::promotable;
use crate::piece_move::special_of_code;
use crate::piece_move::spec_move;
use crate::sliding_attacks::bishop_rays;
use crate::sliding_attacks::queen_rays;
use crate::sliding_attacks::rook_rays;
use crate::square::Square;

verus! {

/// Whether `target` is one pawn push ahead of `origin` for the mover.
pub open spec fn pawn_push_to(c: Color, origin: u64, target: u64) -> bool {
    match c {
        Color::WHITE => origin >= 8 && target == origin - 8,
        Color::BLACK => origin < 56 && target == origin + 8,
    }
}

/// Whether some non-pawn piece of the mover stands on `origin` and
/// reaches `target` by its own pattern: the king and knight tables, or an
/// on-demand ray through the current occupancy.
pub open spec fn piece_pattern(v: BoardV, origin: u64, target: u64) -> bool {
    let all = all_occ(v.bbs);
    let base = 6 * color_index(v.to_move);
    ||| (bit64(v.bbs[base + 0], origin) && bit64(king_attack_entry(origin), target))
    ||| (bit64(v.bbs[base + 1], origin) && bit64(queen_rays(origin as int, all), target))
    ||| (bit64(v.bbs[base + 2], origin) && bit64(rook_rays(origin as int, all), target))
    ||| (bit64(v.bbs[base + 3], origin) && bit64(bishop_rays(origin as int, all), target))
    ||| (bit64(v.bbs[base + 4], origin) && bit64(knight_attack_entry(origin), target))
}

/// The pattern behind a quiet move: a piece pattern, or a pawn's single
/// push.
pub open spec fn quiet_pattern(v: BoardV, origin: u64, target: u64) -> bool {
    ||| piece_pattern(v, origin, target)
    ||| (bit64(v.bbs[6 * color_index(v.to_move) + 5], origin) && pawn_push_to(
        v.to_move,
        origin,
        target,
    ))
}

/// The pattern behind a capture: a piece pattern, or a pawn's diagonal
/// attack.
pub open spec fn capture_pattern(v: BoardV, origin: u64, target: u64) -> bool {
    ||| piece_pattern(v, origin, target)
    ||| (bit64(v.bbs[6 * color_index(v.to_move) + 5], origin) && bit64(
        pawn_attack_entry(color_index(v.to_move), origin),
        target,
    ))
}

/// The full condition a kingside castle is offered under: the right is
/// held, the squares between king and rook are empty, the king stands on
/// its home square, the side is not in check, and the king's first step
/// is not attacked.
pub open spec fn kingside_castle_ok(v: BoardV) -> bool {
    let all = all_occ(v.bbs);
    match v.to_move {
        Color::WHITE => v.castling_rights & 8 != 0 && (all & ((1u64 << 61) | (1u64 << 62))) == 0
            && bit64(v.bbs[0], 60) && !attacked_by(v.bbs, 61, Color::BLACK) && !v.in_check,
        Color::BLACK => v.castling_rights & 2 != 0 && (all & ((1u64 << 5) | (1u64 << 6))) == 0
            && bit64(v.bbs[6], 4) && !attacked_by(v.bbs, 5, Color::WHITE) && !v.in_check,
    }
}

/// The full condition a queenside castle is offered under.
pub open spec fn queenside_castle_ok(v: BoardV) -> bool {
    let all = all_occ(v.bbs);
    match v.to_move {
        Color::WHITE => v.castling_rights & 4 != 0 && (all & ((1u64 << 57) | (1u64 << 58) | (1u64
            << 59))) == 0 && bit64(v.bbs[0], 60) && !attacked_by(v.bbs, 59, Color::BLACK)
            && !v.in_check,
        Color::BLACK => v.castling_rights & 1 != 0 && (all & ((1u64 << 1) | (1u64 << 2) | (1u64
            << 3))) == 0 && bit64(v.bbs[6], 4) && !attacked_by(v.bbs, 3, Color::WHITE)
            && !v.in_check,
    }
}

/// What generation guarantees of every move it emits, stated against the
/// board it generated from: the move starts on a square the mover
/// occupies, its target follows the moving piece's pattern, and its tag
/// matches what stands on the target — quiet-like moves land on an empty
/// square, captures land on an enemy piece, an en-passant move lands
/// exactly on the en-passant target, and a castle carries its full offer
/// condition.
pub open spec fn move_plausible(v: BoardV, m: Move) -> bool {
    let origin = move_origin(m@) as u64;
    let target = move_target(m@) as u64;
    let base = 6 * color_index(v.to_move);
    let ci = color_index(v.to_move);
    &&& m.wf()
    &&& bit64(side_occ(v.bbs, v.to_move), origin)
    &&& match special_of_code(move_code(m@)) {
        SpecialMove::Quiet => !bit64(all_occ(v.bbs), target) && quiet_pattern(v, origin, target),
        SpecialMove::DoublePush => {
            &&& bit64(v.bbs[base + 5], origin)
            &&& !bit64(all_occ(v.bbs), target)
            &&& match v.to_move {
                Color::WHITE => origin / 8 == 6 && target == origin - 16 && !bit64(
                    all_occ(v.bbs),
                    (origin - 8) as u64,
                ),
                Color::BLACK => origin / 8 == 1 && target == origin + 16 && !bit64(
                    all_occ(v.bbs),
                    (origin + 8) as u64,
                ),
            }
        },
        SpecialMove::KingsideCastle => kingside_castle_ok(v) && match v.to_move {
            Color::WHITE => origin == 60 && target == 62,
            Color::BLACK => origin == 4 && target == 6,
        },
        SpecialMove::QueensideCastle => queenside_castle_ok(v) && match v.to_move {
            Color::WHITE => origin == 60 && target == 58,
            Color::BLACK => origin == 4 && target == 2,
        },
        SpecialMove::Capture => bit64(side_occ(v.bbs, opposite(v.to_move)), target)
            && capture_pattern(v, origin, target),
        SpecialMove::EnPassant => target == v.en_passant && bit64(v.bbs[base + 5], origin) && bit64(
            pawn_attack_entry(ci, origin),
            target,
        ),
        SpecialMove::Promotion(p) => {
            &&& promotable(p)
            &&& bit64(v.bbs[base + 5], origin)
            &&& !bit64(all_occ(v.bbs), target)
            &&& pawn_push_to(v.to_move, origin, target)
            &&& match v.to_move {
                Color::WHITE => origin / 8 == 1,
                Color::BLACK => origin / 8 == 6,
            }
        },
        SpecialMove::PromotionCapture(p) => {
            &&& promotable(p)
            &&& bit64(v.bbs[base + 5], origin)
            &&& bit64(side_occ(v.bbs, opposite(v.to_move)), target)
            &&& bit64(pawn_attack_entry(ci, origin), target)
            &&& match v.to_move {
                Color::WHITE => target / 8 == 0,
                Color::BLACK => target / 8 == 7,
            }
        },
    }
}

/// One quiet or capture move per attack square, in ascending square
/// order: a capture where the enemy stands, a quiet move otherwise.
pub open spec fn leap_moves(v: BoardV, o: u8, ts: Seq<u8>) -> Seq<Move>
    decreases ts.len(),
{
    if ts.len() == 0 {
        Seq::empty()
    } else {
        (if bit64(side_occ(v.bbs, opposite(v.to_move)), ts[0] as u64) {
            seq![spec_move(o, ts[0], SpecialMove::Capture)]
        } else {
            seq![spec_move(o, ts[0], SpecialMove::Quiet)]
        }) + leap_moves(v, o, ts.drop_first())
    }
}

/// The attack set a non-pawn piece kind emits from, own pieces removed:
/// `k` is the kind's bitset offset (king 0, queen 1, rook 2, bishop 3,
/// knight 4).
pub open spec fn piece_att(v: BoardV, k: int, o: u8) -> u64 {
    let own = side_occ(v.bbs, v.to_move);
    let t = if k == 0 {
        king_attack_entry(o as u64)
    } else if k == 1 {
        queen_rays(o as int, all_occ(v.bbs))
    } else if k == 2 {
        rook_rays(o as int, all_occ(v.bbs))
    } else if k == 3 {
        bishop_rays(o as int, all_occ(v.bbs))
    } else {
        knight_attack_entry(o as u64)
    };
    t ^ (t & own)
}

/// The moves a run of non-pawn origins emits, in origin order.
pub open spec fn piece_moves(v: BoardV, k: int, os: Seq<u8>) -> Seq<Move>
    decreases os.len(),
{
    if os.len() == 0 {
        Seq::empty()
    } else {
        leap_moves(v, os[0], squares_of(piece_att(v, k, os[0]))) + piece_moves(v, k, os.drop_first())
    }
}

/// The push block a pawn on `o` emits: nothing unless the square ahead is
/// empty; the four promotions from the rank before the last; otherwise a
/// quiet push, plus a double push from the starting rank when the second
/// square is empty too.
pub open spec fn pawn_pushes_from(v: BoardV, o: u8) -> Seq<Move> {
    let all = all_occ(v.bbs);
    match v.to_move {
        Color::WHITE => if o >= 8 && !bit64(all, (o - 8) as u64) {
            if o / 8 == 1 {
                seq![
                    spec_move(o, (o - 8) as u8, SpecialMove::Promotion(Piece::Queen)),
                    spec_move(o, (o - 8) as u8, SpecialMove::Promotion(Piece::Rook)),
                    spec_move(o, (o - 8) as u8, SpecialMove::Promotion(Piece::Bishop)),
                    spec_move(o, (o - 8) as u8, SpecialMove::Promotion(Piece::Knight)),
                ]
            } else {
                seq![spec_move(o, (o - 8) as u8, SpecialMove::Quiet)] + (if o / 8 == 6 && !bit64(
                    all,
                    (o - 16) as u64,
                ) {
                    seq![spec_move(o, (o - 16) as u8, SpecialMove::DoublePush)]
                } else {
                    Seq::empty()
                })
            }
        } else {
            Seq::empty()
        },
        Color::BLACK => if o < 56 && !bit64(all, (o + 8) as u64) {
            if o / 8 == 6 {
                seq![
                    spec_move(o, (o + 8) as u8, SpecialMove::Promotion(Piece::Queen)),
                    spec_move(o, (o + 8) as u8, SpecialMove::Promotion(Piece::Rook)),
                    spec_move(o, (o + 8) as u8, SpecialMove::Promotion(Piece::Bishop)),
                    spec_move(o, (o + 8) as u8, SpecialMove::Promotion(Piece::Knight)),
                ]
            } else {
                seq![spec_move(o, (o + 8) as u8, SpecialMove::Quiet)] + (if o / 8 == 1 && !bit64(
                    all,
                    (o + 16) as u64,
                ) {
                    seq![spec_move(o, (o + 16) as u8, SpecialMove::DoublePush)]
                } else {
                    Seq::empty()
                })
            }
        } else {
            Seq::empty()
        },
    }
}

/// The en-passant move a pawn on `o` emits: exactly one, when a target is
/// set and lies in the pawn's attack set, whatever stands on it.
pub open spec fn pawn_ep_from(v: BoardV, o: u8) -> Seq<Move> {
    if v.en_passant != 64 && bit64(
        pawn_attack_entry(color_index(v.to_move), o as u64),
        v.en_passant as u64,
    ) {
        seq![spec_move(o, v.en_passant, SpecialMove::EnPassant)]
    } else {
        Seq::empty()
    }
}

/// The capture moves a pawn on `o` emits onto the attacked enemy squares
/// `ts`, in ascending order, expanded four ways on the farthest rank.
pub open spec fn pawn_caps(v: BoardV, o: u8, ts: Seq<u8>) -> Seq<Move>
    decreases ts.len(),
{
    if ts.len() == 0 {
        Seq::empty()
    } else {
        (if (v.to_move == Color::WHITE && ts[0] / 8 == 0) || (v.to_move == Color::BLACK && ts[0] / 8
            == 7) {
            seq![
                spec_move(o, ts[0], SpecialMove::PromotionCapture(Piece::Queen)),
                spec_move(o, ts[0], SpecialMove::PromotionCapture(Piece::Rook)),
                spec_move(o, ts[0], SpecialMove::PromotionCapture(Piece::Bishop)),
                spec_move(o, ts[0], SpecialMove::PromotionCapture(Piece::Knight)),
            ]
        } else {
            seq![spec_move(o, ts[0], SpecialMove::Capture)]
        }) + pawn_caps(v, o, ts.drop_first())
    }
}

/// Everything one pawn emits: its push block, its en-passant move, then
/// its captures.
pub open spec fn pawn_moves_from(v: BoardV, o: u8) -> Seq<Move> {
    pawn_pushes_from(v, o) + pawn_ep_from(v, o) + pawn_caps(
        v,
        o,
        squares_of(
            pawn_attack_entry(color_index(v.to_move), o as u64) & side_occ(
                v.bbs,
                opposite(v.to_move),
            ),
        ),
    )
}

/// The moves a run of pawn origins emits, in origin order.
pub open spec fn pawn_moves_seq(v: BoardV, os: Seq<u8>) -> Seq<Move>
    decreases os.len(),
{
    if os.len() == 0 {
        Seq::empty()
    } else {
        pawn_moves_from(v, os[0]) + pawn_moves_seq(v, os.drop_first())
    }
}

/// The pawn part of the generated list.
pub open spec fn pawn_chunk(v: BoardV) -> Seq<Move> {
    let nv = core_of(v);
    pawn_moves_seq(nv, squares_of(nv.bbs[6 * color_index(nv.to_move) + 5]))
}

/// The knight part of the generated list.
pub open spec fn knight_chunk(v: BoardV) -> Seq<Move> {
    let nv = core_of(v);
    piece_moves(nv, 4, squares_of(nv.bbs[6 * color_index(nv.to_move) + 4]))
}

/// The king part of the generated list: the moves of the king on the
/// lowest-indexed square of the king bitset.
pub open spec fn king_chunk(v: BoardV) -> Seq<Move> {
    let nv = core_of(v);
    let o = lsb_index(nv.bbs[6 * color_index(nv.to_move)]) as u8;
    leap_moves(nv, o, squares_of(piece_att(nv, 0, o)))
}

/// The castling part of the generated list: the kingside move when its
/// condition holds, then the queenside move when its condition holds.
pub open spec fn castle_chunk(v: BoardV) -> Seq<Move> {
    let nv = core_of(v);
    (if kingside_castle_ok(nv) {
        match nv.to_move {
            Color::WHITE => seq![spec_move(60, 62, SpecialMove::KingsideCastle)],
            Color::BLACK => seq![spec_move(4, 6, SpecialMove::KingsideCastle)],
        }
    } else {
        Seq::empty()
    }) + (if queenside_castle_ok(nv) {
        match nv.to_move {
            Color::WHITE => seq![spec_move(60, 58, SpecialMove::QueensideCastle)],
            Color::BLACK => seq![spec_move(4, 2, SpecialMove::QueensideCastle)],
        }
    } else {
        Seq::empty()
    })
}

/// One slider part of the generated list, kind offset `k` (bishop 3,
/// rook 2, queen 1).
pub open spec fn slider_chunk(v: BoardV, k: int) -> Seq<Move> {
    let nv = core_of(v);
    piece_moves(nv, k, squares_of(nv.bbs[6 * color_index(nv.to_move) + k]))
}

/// The whole generated move list of a position: piece kinds in the fixed
/// order pawns, knights, king, castling, bishops, rooks, queens, origins
/// ascending within a kind, targets ascending per origin. A function of
/// the position fields alone: the move-list field plays no part.
pub open spec fn spec_gen_moves(v: BoardV) -> Seq<Move> {
    pawn_chunk(v) + knight_chunk(v) + king_chunk(v) + castle_chunk(v) + slider_chunk(v, 3)
        + slider_chunk(v, 2) + slider_chunk(v, 1)
}

/// The generated list reads only the position fields: two boards equal
/// in bitsets, side to move, castling rights, en-passant target and
/// check flag generate the same list, whatever their move lists hold.
pub proof fn lemma_gen_moves_core(v1: BoardV, v2: BoardV)
    requires
        v1.bbs == v2.bbs,
        v1.to_move == v2.to_move,
        v1.castling_rights == v2.castling_rights,
        v1.en_passant == v2.en_passant,
        v1.in_check == v2.in_check,
    ensures
        spec_gen_moves(v1) == spec_gen_moves(v2),
{
    assert(core_of(v1) == core_of(v2));
    assert(pawn_chunk(v1) == pawn_chunk(v2));
    assert(knight_chunk(v1) == knight_chunk(v2));
    assert(king_chunk(v1) == king_chunk(v2));
    assert(castle_chunk(v1) == castle_chunk(v2));
    assert(slider_chunk(v1, 3) == slider_chunk(v2, 3));
    assert(slider_chunk(v1, 2) == slider_chunk(v2, 2));
    assert(slider_chunk(v1, 1) == slider_chunk(v2, 1));
}

/// Whether the list holds the castle move of the given color and wing.
pub open spec fn contains_castle(ms: Seq<Move>, c: Color, kingside: bool) -> bool {
    exists|j: int|
        0 <= j < ms.len() && (#[trigger] ms[j])@ == match (c, kingside) {
            (Color::WHITE, true) => encode_move(60, 62, SpecialMove::KingsideCastle),
            (Color::WHITE, false) => encode_move(60, 58, SpecialMove::QueensideCastle),
            (Color::BLACK, true) => encode_move(4, 6, SpecialMove::KingsideCastle),
            (Color::BLACK, false) => encode_move(4, 2, SpecialMove::QueensideCastle),
        }
}

/// The new list extends the old one, and every appended move is plausible
/// on the given board.
pub open spec fn appended_plausible(v: BoardV, old_l: Seq<Move>, new_l: Seq<Move>) -> bool {
    &&& new_l.len() >= old_l.len()
    &&& forall|j: int| 0 <= j < old_l.len() ==> new_l[j] == old_l[j]
    &&& forall|j: int| old_l.len() <= j < new_l.len() ==> move_plausible(v, #[trigger] new_l[j])
}

impl Board {
    fn gen_pawn_moves(&self, tables: &MoveTables, list: &mut MoveList)
        requires
            self@.wf(),
            tables.wf(),
        ensures
            appended_plausible(self@, old(list)@, final(list)@),
            final(list)@ == old(list)@ + pawn_chunk(self@),
    {
        proof {
            lemma_bit64_ops();
            lemma_board_view(self);
        }
        let ghost l0 = old(list)@;
        let white = match self.get_to_move() {
            Color::WHITE => true,
            Color::BLACK => false,
        };
        let (own, enemy, pawn_i): (u64, u64, usize) = if white {
            (self.occ_white(), self.occ_black(), 5)
        } else {
            (self.occ_black(), self.occ_white(), 11)
        };
        let all: u64 = self.occ_all();
        let ep = self.en_passant;
        let mut bb = Bitboard::new(self.bitboards[pawn_i]);
        let ghost nv = core_of(self@);
        let ghost bb0 = bb@;
        while !bb.is_empty()
            invariant
                self@.wf(),
                tables.wf(),
                white == (self@.to_move == Color::WHITE),
                pawn_i == if white {
                    5int
                } else {
                    11int
                },
                nv == core_of(self@),
                own == side_occ(self@.bbs, self@.to_move),
                enemy == side_occ(self@.bbs, opposite(self@.to_move)),
                all == all_occ(self@.bbs),
                ep@ == self@.en_passant,
                forall|j: u64|
                    j < 64 && #[trigger] bit64(bb@, j) ==> bit64(self@.bbs[pawn_i as int], j),
                appended_plausible(self@, l0, list@),
                l0 + pawn_moves_seq(nv, squares_of(bb0)) == list@ + pawn_moves_seq(
                    nv,
                    squares_of(bb@),
                ),
            decreases bb@,
        {
            proof {
                lemma_bit64_ops();
                lemma_board_view(self);
                lemma_lsb_props(bb@);
            }
            let origin = match bb.get_lsb_square() {
                Some(sq) => sq,
                None => {
                    proof {
                        assert(false);
                    }
                    Square::new(0)
                },
            };
            proof {
                lemma_occ_bit(self@.bbs, origin@ as u64);
            }
            let ghost at_origin = list@;
            let ghost bbrest = bb@ & !(1u64 << (origin@ as u64));
            proof {
                assert(squares_of(bb@) =~= seq![origin@] + squares_of(bbrest));
                assert((seq![origin@] + squares_of(bbrest)).drop_first() =~= squares_of(bbrest));
            }
            // pushes: only onto an empty square, promoting from the rank
            // before the last, double-stepping from the starting rank
            let can_push = if white {
                origin.to_int() >= 8
            } else {
                origin.to_int() < 56
            };
            if can_push {
                let target = if white {
                    Square::new(origin.to_int() - 8)
                } else {
                    Square::new(origin.to_int() + 8)
                };
                if Bitboard::new(all).get_bit_by_square(target) == 0 {
                    proof {
                        lemma_occ_bit(self@.bbs, target@ as u64);
                    }
                    let promo_rank = if white {
                        origin.rank() == 7
                    } else {
                        origin.rank() == 2
                    };
                    if promo_rank {
                        list.add(Move::new(origin, target, SpecialMove::Promotion(Piece::Queen)));
                        list.add(Move::new(origin, target, SpecialMove::Promotion(Piece::Rook)));
                        list.add(Move::new(origin, target, SpecialMove::Promotion(Piece::Bishop)));
                        list.add(Move::new(origin, target, SpecialMove::Promotion(Piece::Knight)));
                    } else {
                        list.add(Move::new(origin, target, SpecialMove::Quiet));
                        let start_rank = if white {
                            origin.rank() == 2
                        } else {
                            origin.rank() == 7
                        };
                        if start_rank {
                            let dbl = if white {
                                Square::new(origin.to_int() - 16)
                            } else {
                                Square::new(origin.to_int() + 16)
                            };
                            if Bitboard::new(all).get_bit_by_square(dbl) != 1 {
                                proof {
                                    lemma_occ_bit(self@.bbs, dbl@ as u64);
                                }
                                list.add(Move::new(origin, dbl, SpecialMove::DoublePush));
                            }
                        }
                    }
                }
            }
            proof {
                assert(list@ =~= at_origin + pawn_pushes_from(nv, origin@));
            }
            let ghost after_pushes = list@;
            // diagonal captures, from the precomputed pawn-attack table
            let t: u64 = if white {
                tables.pawn_attacks[0][origin.to_index()]
            } else {
                tables.pawn_attacks[1][origin.to_index()]
            };
            // en passant: offered whenever the target square is attacked,
            // regardless of what stands on it
            if ep.to_int() != 64 && Bitboard::new(t).get_bit_by_square(ep) == 1 {
                list.add(Move::new(origin, ep, SpecialMove::EnPassant));
            }
            proof {
                assert(t == pawn_attack_entry(color_index(nv.to_move), origin@ as u64));
                assert(list@ =~= after_pushes + pawn_ep_from(nv, origin@));
            }
            let ghost after_ep = list@;
            let mut att: u64 = t & enemy;
            let ghost attc0 = att;
            while att != 0
                invariant
                    self@.wf(),
                    white == (self@.to_move == Color::WHITE),
                    origin@ < 64,
                    nv == core_of(self@),
                    bit64(side_occ(self@.bbs, self@.to_move), origin@ as u64),
                    bit64(self@.bbs[6 * color_index(self@.to_move) + 5], origin@ as u64),
                    enemy == side_occ(self@.bbs, opposite(self@.to_move)),
                    forall|j: u64|
                        j < 64 && #[trigger] bit64(att, j) ==> bit64(enemy, j) && bit64(
                            pawn_attack_entry(color_index(self@.to_move), origin@ as u64),
                            j,
                        ),
                    appended_plausible(self@, l0, list@),
                    after_ep + pawn_caps(nv, origin@, squares_of(attc0)) == list@ + pawn_caps(
                        nv,
                        origin@,
                        squares_of(att),
                    ),
                decreases att,
            {
                proof {
                    lemma_bit64_ops();
                    lemma_lsb_props(att);
                    lemma_clear_bit_decreases(att, lsb_index(att) as u64);
                }
                let target = match Bitboard::new(att).get_lsb_square() {
                    Some(sq) => sq,
                    None => {
                        proof {
                            assert(false);
                        }
                        Square::new(0)
                    },
                };
                let ghost before = list@;
                let ghost attrest = att & !(1u64 << (target@ as u64));
                proof {
                    assert(squares_of(att) =~= seq![target@] + squares_of(attrest));
                    assert((seq![target@] + squares_of(attrest)).drop_first() =~= squares_of(
                        attrest,
                    ));
                }
                let promo_rank = if white {
                    target.rank() == 8
                } else {
                    target.rank() == 1
                };
                if promo_rank {
                    list.add(
                        Move::new(origin, target, SpecialMove::PromotionCapture(Piece::Queen)),
                    );
                    list.add(Move::new(origin, target, SpecialMove::PromotionCapture(Piece::Rook)));
                    list.add(
                        Move::new(origin, target, SpecialMove::PromotionCapture(Piece::Bishop)),
                    );
                    list.add(
                        Move::new(origin, target, SpecialMove::PromotionCapture(Piece::Knight)),
                    );
                } else {
                    list.add(Move::new(origin, target, SpecialMove::Capture));
                }
                proof {
                    assert(after_ep + pawn_caps(nv, origin@, squares_of(attc0)) =~= list@
                        + pawn_caps(nv, origin@, squares_of(attrest)));
                }
                att = att & !(1u64 << target.to_int());
            }
            proof {
                assert(pawn_caps(nv, origin@, squares_of(0u64)) =~= Seq::empty());
                assert(list@ =~= after_ep + pawn_caps(nv, origin@, squares_of(attc0)));
                assert(list@ =~= at_origin + pawn_moves_from(nv, origin@));
                assert(pawn_moves_seq(nv, squares_of(bb@)) =~= pawn_moves_from(nv, origin@)
                    + pawn_moves_seq(nv, squares_of(bbrest)));
                assert(l0 + pawn_moves_seq(nv, squares_of(bb0)) =~= list@ + pawn_moves_seq(
                    nv,
                    squares_of(bbrest),
                ));
                lemma_clear_bit_decreases(bb@, origin@ as u64);
            }
            bb.pop_bit_by_square(origin);
        }
        proof {
            assert(pawn_moves_seq(nv, squares_of(0u64)) =~= Seq::empty());
            assert(list@ =~= l0 + pawn_moves_seq(nv, squares_of(bb0)));
            assert(list@ =~= l0 + pawn_chunk(self@));
        }
    }

    fn gen_knight_moves(&self, tables: &MoveTables, list: &mut MoveList)
        requires
            self@.wf(),
            tables.wf(),
        ensures
            appended_plausible(self@, old(list)@, final(list)@),
            final(list)@ == old(list)@ + knight_chunk(self@),
    {
        proof {
            lemma_bit64_ops();
            lemma_board_view(self);
        }
        let ghost l0 = old(list)@;
        let white = match self.get_to_move() {
            Color::WHITE => true,
            Color::BLACK => false,
        };
        let (own, enemy, knight_i): (u64, u64, usize) = if white {
            (self.occ_white(), self.occ_black(), 4)
        } else {
            (self.occ_black(), self.occ_white(), 10)
        };
        let mut bb = Bitboard::new(self.bitboards[knight_i]);
        let ghost nv = core_of(self@);
        let ghost bb0 = bb@;
        while !bb.is_empty()
            invariant
                self@.wf(),
                tables.wf(),
                white == (self@.to_move == Color::WHITE),
                knight_i == if white {
                    4int
                } else {
                    10int
                },
                nv == core_of(self@),
                own == side_occ(self@.bbs, self@.to_move),
                enemy == side_occ(self@.bbs, opposite(self@.to_move)),
                forall|j: u64|
                    j < 64 && #[trigger] bit64(bb@, j) ==> bit64(self@.bbs[knight_i as int], j),
                appended_plausible(self@, l0, list@),
                l0 + piece_moves(nv, 4, squares_of(bb0)) == list@ + piece_moves(
                    nv,
                    4,
                    squares_of(bb@),
                ),
            decreases bb@,
        {
            proof {
                lemma_bit64_ops();
                lemma_board_view(self);
                lemma_lsb_props(bb@);
            }
            let origin = match bb.get_lsb_square() {
                Some(sq) => sq,
                None => {
                    proof {
                        assert(false);
                    }
                    Square::new(0)
                },
            };
            proof {
                lemma_occ_bit(self@.bbs, origin@ as u64);
            }
            let t: u64 = tables.knight_attacks[origin.to_index()];
            let att: u64 = t ^ (t & own);
            proof {
                assert forall|j: u64| j < 64 && #[trigger] bit64(att, j) implies !bit64(own, j)
                    && piece_pattern(self@, origin@ as u64, j) by {
                    assert(bit64(t, j) && !bit64(own, j));
                    assert(bit64(self@.bbs[6 * color_index(self@.to_move) + 4], origin@ as u64));
                }
            }
            let ghost before = list@;
            let ghost bbrest = bb@ & !(1u64 << (origin@ as u64));
            proof {
                assert(squares_of(bb@) =~= seq![origin@] + squares_of(bbrest));
                assert((seq![origin@] + squares_of(bbrest)).drop_first() =~= squares_of(bbrest));
                assert(att == piece_att(nv, 4, origin@));
            }
            self.emit_leaps(origin, att, own, enemy, list);
            proof {
                assert(piece_moves(nv, 4, squares_of(bb@)) =~= leap_moves(
                    nv,
                    origin@,
                    squares_of(att),
                ) + piece_moves(nv, 4, squares_of(bbrest)));
                assert(l0 + piece_moves(nv, 4, squares_of(bb0)) =~= list@ + piece_moves(
                    nv,
                    4,
                    squares_of(bbrest),
                ));
                lemma_clear_bit_decreases(bb@, origin@ as u64);
            }
            bb.pop_bit_by_square(origin);
        }
        proof {
            assert(piece_moves(nv, 4, squares_of(0u64)) =~= Seq::empty());
            assert(list@ =~= l0 + piece_moves(nv, 4, squares_of(bb0)));
            assert(list@ =~= l0 + knight_chunk(self@));
        }
    }

    /// Emit one quiet or capture move for every square of `att`, which
    /// must avoid the mover's own pieces and follow the moving piece's
    /// pattern from the origin.
    fn emit_leaps(&self, origin: Square, att: u64, own: u64, enemy: u64, list: &mut MoveList)
        requires
            self@.wf(),
            origin@ < 64,
            bit64(side_occ(self@.bbs, self@.to_move), origin@ as u64),
            own == side_occ(self@.bbs, self@.to_move),
            enemy == side_occ(self@.bbs, opposite(self@.to_move)),
            forall|j: u64|
                j < 64 && #[trigger] bit64(att, j) ==> !bit64(own, j) && piece_pattern(
                    self@,
                    origin@ as u64,
                    j,
                ),
        ensures
            appended_plausible(self@, old(list)@, final(list)@),
            final(list)@ == old(list)@ + leap_moves(core_of(self@), origin@, squares_of(att)),
    {
        proof {
            lemma_bit64_ops();
            lemma_board_view(self);
        }
        let ghost l0 = old(list)@;
        let ghost nv = core_of(self@);
        let ghost att0 = att;
        let mut att = att;
        while att != 0
            invariant
                self@.wf(),
                origin@ < 64,
                nv == core_of(self@),
                bit64(side_occ(self@.bbs, self@.to_move), origin@ as u64),
                own == side_occ(self@.bbs, self@.to_move),
                enemy == side_occ(self@.bbs, opposite(self@.to_move)),
                forall|j: u64|
                    j < 64 && #[trigger] bit64(att, j) ==> !bit64(own, j) && piece_pattern(
                        self@,
                        origin@ as u64,
                        j,
                    ),
                appended_plausible(self@, l0, list@),
                l0 + leap_moves(nv, origin@, squares_of(att0)) == list@ + leap_moves(
                    nv,
                    origin@,
                    squares_of(att),
                ),
            decreases att,
        {
            proof {
                lemma_bit64_ops();
                lemma_board_view(self);
                lemma_lsb_props(att);
                lemma_clear_bit_decreases(att, lsb_index(att) as u64);
            }
            let target = match Bitboard::new(att).get_lsb_square() {
                Some(sq) => sq,
                None => {
                    proof {
                        assert(false);
                    }
                    Square::new(0)
                },
            };
            proof {
                lemma_occ_bit(self@.bbs, target@ as u64);
            }
            let ghost before = list@;
            let ghost rest = att & !(1u64 << target@ as u64);
            proof {
                assert(squares_of(att) =~= seq![target@] + squares_of(rest));
                assert((seq![target@] + squares_of(rest)).drop_first() =~= squares_of(rest));
            }
            if Bitboard::new(enemy).get_bit_by_square(target) == 1 {
                list.add(Move::new(origin, target, SpecialMove::Capture));
                proof {
                    assert(leap_moves(nv, origin@, squares_of(att)) =~= seq![
                        spec_move(origin@, target@, SpecialMove::Capture),
                    ] + leap_moves(nv, origin@, squares_of(rest)));
                    assert(list@ =~= before + seq![
                        spec_move(origin@, target@, SpecialMove::Capture),
                    ]);
                }
            } else {
                list.add(Move::new(origin, target, SpecialMove::Quiet));
                proof {
                    assert(leap_moves(nv, origin@, squares_of(att)) =~= seq![
                        spec_move(origin@, target@, SpecialMove::Quiet),
                    ] + leap_moves(nv, origin@, squares_of(rest)));
                    assert(list@ =~= before + seq![spec_move(origin@, target@, SpecialMove::Quiet)]);
                }
            }
            proof {
                assert(l0 + leap_moves(nv, origin@, squares_of(att0)) =~= list@ + leap_moves(
                    nv,
                    origin@,
                    squares_of(rest),
                ));
            }
            att = att & !(1u64 << target.to_int());
        }
        proof {
            assert(leap_moves(nv, origin@, squares_of(0u64)) =~= Seq::empty());
            assert(list@ =~= l0 + leap_moves(nv, origin@, squares_of(att0)));
        }
    }

    fn gen_king_moves(&self, tables: &MoveTables, list: &mut MoveList)
        requires
            self@.wf(),
            tables.wf(),
            self@.has_kings(),
        ensures
            appended_plausible(self@, old(list)@, final(list)@),
            final(list)@ == old(list)@ + king_chunk(self@),
    {
        proof {
            lemma_bit64_ops();
            lemma_board_view(self);
        }
        let ghost nv = core_of(self@);
        let white = match self.get_to_move() {
            Color::WHITE => true,
            Color::BLACK => false,
        };
        let (own, enemy, king_i): (u64, u64, usize) = if white {
            (self.occ_white(), self.occ_black(), 0)
        } else {
            (self.occ_black(), self.occ_white(), 6)
        };
        let kbb = Bitboard::new(self.bitboards[king_i]);
        proof {
            lemma_lsb_props(kbb@);
        }
        let origin = match kbb.get_lsb_square() {
            Some(sq) => sq,
            None => {
                proof {
                    assert(false);
                }
                Square::new(0)
            },
        };
        proof {
            lemma_occ_bit(self@.bbs, origin@ as u64);
        }
        let t: u64 = tables.king_attacks[origin.to_index()];
        let att: u64 = t ^ (t & own);
        proof {
            assert forall|j: u64| j < 64 && #[trigger] bit64(att, j) implies !bit64(own, j)
                && piece_pattern(self@, origin@ as u64, j) by {
                assert(bit64(t, j) && !bit64(own, j));
                assert(bit64(self@.bbs[6 * color_index(self@.to_move) + 0], origin@ as u64));
            }
            assert(att == piece_att(nv, 0, origin@));
            assert(origin@ == lsb_index(nv.bbs[6 * color_index(nv.to_move)]) as u8);
        }
        self.emit_leaps(origin, att, own, enemy, list);
        proof {
            assert(list@ =~= old(list)@ + king_chunk(self@));
        }
    }

    fn gen_castling_moves(&self, tables: &MoveTables, list: &mut MoveList)
        requires
            self@.wf(),
            tables.wf(),
        ensures
            appended_plausible(self@, old(list)@, final(list)@),
            final(list)@ == old(list)@ + castle_chunk(self@),
            kingside_castle_ok(self@) ==> contains_castle(final(list)@, self@.to_move, true),
            queenside_castle_ok(self@) ==> contains_castle(final(list)@, self@.to_move, false),
    {
        proof {
            lemma_bit64_ops();
            lemma_board_view(self);
            assert(kingside_castle_ok(core_of(self@)) == kingside_castle_ok(self@));
            assert(queenside_castle_ok(core_of(self@)) == queenside_castle_ok(self@));
        }
        let ghost l0 = old(list)@;
        let ghost nv = core_of(self@);
        let all: u64 = self.occ_all();
        match self.get_to_move() {
            Color::WHITE => {
                // kingside: the right is held, f1 and g1 are empty, the
                // king stands on e1, is not in check, and f1 is not
                // attacked
                if self.castling_rights & 8 != 0 {
                    let between = (1u64 << 61) | (1u64 << 62);
                    if all & between == 0 && Bitboard::new(self.bitboards[0]).get_bit(60) == 1 {
                        if !self.is_attacked(tables, Square::new(61), Some(Color::BLACK))
                            && !self.is_in_check() {
                            proof {
                                lemma_occ_bit(self@.bbs, 60);
                                lemma_occ_bit(self@.bbs, 62);
                                assert(bit64(all_occ(self@.bbs) & ((1u64 << 61) | (1u64 << 62)), 62)
                                    == false);
                                assert(kingside_castle_ok(self@));
                            }
                            list.add(
                                Move::new(Square::new(60), Square::new(62), SpecialMove::KingsideCastle),
                            );
                            proof {
                                assert(list@[list@.len() - 1]@ == encode_move(
                                    60,
                                    62,
                                    SpecialMove::KingsideCastle,
                                ));
                            }
                        }
                    }
                }
                let ghost lk = list@;
                proof {
                    if kingside_castle_ok(self@) {
                        assert(contains_castle(lk, self@.to_move, true));
                        assert(lk =~= l0 + seq![spec_move(60, 62, SpecialMove::KingsideCastle)]);
                    } else {
                        assert(lk =~= l0);
                    }
                }
                // queenside: the right is held, b1, c1 and d1 are empty,
                // the king stands on e1, is not in check, and d1 is not
                // attacked
                if self.castling_rights & 4 != 0 {
                    let between = (1u64 << 57) | (1u64 << 58) | (1u64 << 59);
                    if all & between == 0 && Bitboard::new(self.bitboards[0]).get_bit(60) == 1 {
                        if !self.is_attacked(tables, Square::new(59), Some(Color::BLACK))
                            && !self.is_in_check() {
                            proof {
                                lemma_occ_bit(self@.bbs, 60);
                                lemma_occ_bit(self@.bbs, 58);
                                assert(bit64(
                                    all_occ(self@.bbs) & ((1u64 << 57) | (1u64 << 58) | (1u64
                                        << 59)),
                                    58,
                                ) == false);
                                assert(queenside_castle_ok(self@));
                            }
                            list.add(
                                Move::new(Square::new(60), Square::new(58), SpecialMove::QueensideCastle),
                            );
                            proof {
                                assert(list@[list@.len() - 1]@ == encode_move(
                                    60,
                                    58,
                                    SpecialMove::QueensideCastle,
                                ));
                            }
                        }
                    }
                }
                proof {
                    if kingside_castle_ok(self@) {
                        let j = choose|j: int|
                            0 <= j < lk.len() && (#[trigger] lk[j])@ == encode_move(
                                60,
                                62,
                                SpecialMove::KingsideCastle,
                            );
                        assert((list@[j])@ == encode_move(60, 62, SpecialMove::KingsideCastle));
                        assert(contains_castle(list@, self@.to_move, true));
                    }
                    if queenside_castle_ok(self@) {
                        assert(list@ =~= lk + seq![spec_move(60, 58, SpecialMove::QueensideCastle)]);
                    } else {
                        assert(list@ =~= lk);
                    }
                    assert(list@ =~= l0 + castle_chunk(self@));
                }
            },
            Color::BLACK => {
                if self.castling_rights & 2 != 0 {
                    let between = (1u64 << 5) | (1u64 << 6);
                    if all & between == 0 && Bitboard::new(self.bitboards[6]).get_bit(4) == 1 {
                        if !self.is_attacked(tables, Square::new(5), Some(Color::WHITE))
                            && !self.is_in_check() {
                            proof {
                                lemma_occ_bit(self@.bbs, 4);
                                lemma_occ_bit(self@.bbs, 6);
                                assert(bit64(all_occ(self@.bbs) & ((1u64 << 5) | (1u64 << 6)), 6)
                                    == false);
                                assert(kingside_castle_ok(self@));
                            }
                            list.add(
                                Move::new(Square::new(4), Square::new(6), SpecialMove::KingsideCastle),
                            );
                            proof {
                                assert(list@[list@.len() - 1]@ == encode_move(
                                    4,
                                    6,
                                    SpecialMove::KingsideCastle,
                                ));
                            }
                        }
                    }
                }
                let ghost lk = list@;
                proof {
                    if kingside_castle_ok(self@) {
                        assert(contains_castle(lk, self@.to_move, true));
                        assert(lk =~= l0 + seq![spec_move(4, 6, SpecialMove::KingsideCastle)]);
                    } else {
                        assert(lk =~= l0);
                    }
                }
                if self.castling_rights & 1 != 0 {
                    let between = (1u64 << 1) | (1u64 << 2) | (1u64 << 3);
                    if all & between == 0 && Bitboard::new(self.bitboards[6]).get_bit(4) == 1 {
                        if !self.is_attacked(tables, Square::new(3), Some(Color::WHITE))
                            && !self.is_in_check() {
                            proof {
                                lemma_occ_bit(self@.bbs, 4);
                                lemma_occ_bit(self@.bbs, 2);
                                assert(bit64(
                                    all_occ(self@.bbs) & ((1u64 << 1) | (1u64 << 2) | (1u64 << 3)),
                                    2,
                                ) == false);
                                assert(queenside_castle_ok(self@));
                            }
                            list.add(
                                Move::new(Square::new(4), Square::new(2), SpecialMove::QueensideCastle),
                            );
                            proof {
                                assert(list@[list@.len() - 1]@ == encode_move(
                                    4,
                                    2,
                                    SpecialMove::QueensideCastle,
                                ));
                            }
                        }
                    }
                }
                proof {
                    if kingside_castle_ok(self@) {
                        let j = choose|j: int|
                            0 <= j < lk.len() && (#[trigger] lk[j])@ == encode_move(
                                4,
                                6,
                                SpecialMove::KingsideCastle,
                            );
                        assert((list@[j])@ == encode_move(4, 6, SpecialMove::KingsideCastle));
                        assert(contains_castle(list@, self@.to_move, true));
                    }
                    if queenside_castle_ok(self@) {
                        assert(list@ =~= lk + seq![spec_move(4, 2, SpecialMove::QueensideCastle)]);
                    } else {
                        assert(list@ =~= lk);
                    }
                    assert(list@ =~= l0 + castle_chunk(self@));
                }
            },
        }
    }

    fn gen_slider_moves(&self, piece: Piece, list: &mut MoveList)
        requires
            self@.wf(),
            piece == Piece::Bishop || piece == Piece::Rook || piece == Piece::Queen,
        ensures
            appended_plausible(self@, old(list)@, final(list)@),
            final(list)@ == old(list)@ + slider_chunk(self@, crate::piece::piece_index(piece)),
    {
        proof {
            lemma_bit64_ops();
            lemma_board_view(self);
        }
        let ghost l0 = old(list)@;
        let white = match self.get_to_move() {
            Color::WHITE => true,
            Color::BLACK => false,
        };
        let (own, enemy): (u64, u64) = if white {
            (self.occ_white(), self.occ_black())
        } else {
            (self.occ_black(), self.occ_white())
        };
        let base: usize = if white {
            0
        } else {
            6
        };
        let bbi: usize = base + piece.to_index();
        let all = self.get_all_pieces();
        let mut bb = Bitboard::new(self.bitboards[bbi]);
        let ghost nv = core_of(self@);
        let ghost k = crate::piece::piece_index(piece);
        let ghost bb0 = bb@;
        while !bb.is_empty()
            invariant
                self@.wf(),
                white == (self@.to_move == Color::WHITE),
                base == 6 * color_index(self@.to_move),
                bbi == base + crate::piece::piece_index(piece),
                bbi < 12,
                piece == Piece::Bishop || piece == Piece::Rook || piece == Piece::Queen,
                nv == core_of(self@),
                k == crate::piece::piece_index(piece),
                own == side_occ(self@.bbs, self@.to_move),
                enemy == side_occ(self@.bbs, opposite(self@.to_move)),
                all@ == all_occ(self@.bbs),
                forall|j: u64|
                    j < 64 && #[trigger] bit64(bb@, j) ==> bit64(self@.bbs[bbi as int], j),
                appended_plausible(self@, l0, list@),
                l0 + piece_moves(nv, k, squares_of(bb0)) == list@ + piece_moves(
                    nv,
                    k,
                    squares_of(bb@),
                ),
            decreases bb@,
        {
            proof {
                lemma_bit64_ops();
                lemma_board_view(self);
                lemma_lsb_props(bb@);
            }
            let origin = match bb.get_lsb_square() {
                Some(sq) => sq,
                None => {
                    proof {
                        assert(false);
                    }
                    Square::new(0)
                },
            };
            proof {
                lemma_occ_bit(self@.bbs, origin@ as u64);
            }
            let t: u64 = match piece {
                Piece::Bishop => get_bishop_rays_int(origin, all),
                Piece::Rook => get_rook_rays_int(origin, all),
                _ => get_queen_rays_int(origin, all),
            };
            let att: u64 = t ^ (t & own);
            proof {
                assert forall|j: u64| j < 64 && #[trigger] bit64(att, j) implies !bit64(own, j)
                    && piece_pattern(self@, origin@ as u64, j) by {
                    assert(bit64(t, j) && !bit64(own, j));
                    assert(bit64(self@.bbs[bbi as int], origin@ as u64));
                }
            }
            let ghost before = list@;
            let ghost bbrest = bb@ & !(1u64 << (origin@ as u64));
            proof {
                assert(squares_of(bb@) =~= seq![origin@] + squares_of(bbrest));
                assert((seq![origin@] + squares_of(bbrest)).drop_first() =~= squares_of(bbrest));
                assert(att == piece_att(nv, k, origin@));
            }
            self.emit_leaps(origin, att, own, enemy, list);
            proof {
                assert(piece_moves(nv, k, squares_of(bb@)) =~= leap_moves(
                    nv,
                    origin@,
                    squares_of(att),
                ) + piece_moves(nv, k, squares_of(bbrest)));
                assert(l0 + piece_moves(nv, k, squares_of(bb0)) =~= list@ + piece_moves(
                    nv,
                    k,
                    squares_of(bbrest),
                ));
                lemma_clear_bit_decreases(bb@, origin@ as u64);
            }
            bb.pop_bit_by_square(origin);
        }
        proof {
            assert(piece_moves(nv, k, squares_of(0u64)) =~= Seq::empty());
            assert(list@ =~= l0 + piece_moves(nv, k, squares_of(bb0)));
            assert(list@ =~= l0 + slider_chunk(self@, k));
        }
    }

    /// Clear and rebuild the move list for the side to move, processing
    /// piece kinds in a fixed order: pawns, knights, king, castling,
    /// bishops, rooks, queens. The board itself is left untouched, and
    /// every emitted move is plausible on it.
    pub fn gen_moves(&mut self, tables: &MoveTables)
        requires
            old(self)@.wf(),
            tables.wf(),
            old(self)@.has_kings(),
        ensures
            final(self)@ == (BoardV { moves: final(self)@.moves, ..old(self)@ }),
            final(self)@.moves == spec_gen_moves(old(self)@),
            forall|j: int|
                0 <= j < final(self)@.moves.len() ==> move_plausible(
                    old(self)@,
                    #[trigger] final(self)@.moves[j],
                ),
            kingside_castle_ok(old(self)@) ==> contains_castle(
                final(self)@.moves,
                old(self)@.to_move,
                true,
            ),
            queenside_castle_ok(old(self)@) ==> contains_castle(
                final(self)@.moves,
                old(self)@.to_move,
                false,
            ),
            final(self)@.wf(),
            final(self)@.has_kings(),
    {
        proof {
            lemma_board_view(self);
        }
        let mut list = MoveList::empty();
        self.gen_pawn_moves(tables, &mut list);
        let ghost g1 = list@;
        self.gen_knight_moves(tables, &mut list);
        let ghost g2 = list@;
        self.gen_king_moves(tables, &mut list);
        let ghost g3 = list@;
        self.gen_castling_moves(tables, &mut list);
        let ghost g4 = list@;
        self.gen_slider_moves(Piece::Bishop, &mut list);
        let ghost g5 = list@;
        self.gen_slider_moves(Piece::Rook, &mut list);
        let ghost g6 = list@;
        self.gen_slider_moves(Piece::Queen, &mut list);
        proof {
            assert(forall|j: int|
                0 <= j < list@.len() ==> move_plausible(old(self)@, #[trigger] list@[j]));
            assert(g1 =~= pawn_chunk(old(self)@));
            assert(list@ =~= spec_gen_moves(old(self)@));
        }
        self.pseudo_moves = list;
        proof {
            lemma_board_view(self);
        }
    }
}

fn get_bishop_rays_int(origin: Square, all: Bitboard) -> (r: u64)
    requires
        origin@ < 64,
    ensures
        r == crate::sliding_attacks::bishop_rays(origin@ as int, all@),
{
    crate::sliding_attacks::get_bishop_rays(origin, all).to_int()
}

fn get_rook_rays_int(origin: Square, all: Bitboard) -> (r: u64)
    requires
        origin@ < 64,
    ensures
        r == crate::sliding_attacks::rook_rays(origin@ as int, all@),
{
    crate::sliding_attacks::get_rook_rays(origin, all).to_int()
}

fn get_queen_rays_int(origin: Square, all: Bitboard) -> (r: u64)
    requires
        origin@ < 64,
    ensures
        r == crate::sliding_attacks::queen_rays(origin@ as int, all@),
{
    crate::sliding_attacks::get_queen_rays(origin, all).to_int()
}

} // verus!
