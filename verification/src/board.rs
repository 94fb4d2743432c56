//! The mutable board state: twelve piece bitsets in the fixed order
//! White K, Q, R, B, N, P then Black k, q, r, b, n, p, together with the
//! side to move, the castling rights, the en-passant target and the check
//! flag of the side to move.

use vstd::prelude::*;
use vstd::string::StringSliceAdditionalSpecFns;
use crate::bitboard::Bitboard;
use crate::bitboard::bit64;
use crate::bitboard::lsb_index;
use crate::bitboard::popcount;
use crate::piece::Piece;
use crate::piece::piece_index;
use crate::piece_move::SpecialMove;
use crate::piece_move::move_code;
use crate::piece_move::move_origin;
use crate::piece_move::move_target;
use crate::piece_move::special_of_code;
use crate::color::Color;
use crate::color::color_index;
use crate::color::opposite;
use crate::move_tables::MoveTables;
use crate::move_tables::pawn_attack_entry;
use crate::move_tables::knight_attack_entry;
use crate::move_tables::king_attack_entry;
use crate::piece_move::Move;
use crate::piece_move::MoveList;
use crate::sliding_attacks::bishop_rays;
use crate::sliding_attacks::rook_rays;
use crate::sliding_attacks::queen_rays;
use crate::sliding_attacks::get_bishop_rays;
use crate::sliding_attacks::get_rook_rays;
use crate::sliding_attacks::get_queen_rays;
use crate::square::NO_SQUARE_INDEX;
use crate::square::Square;

verus! {

/// The standard starting position, as a position-description string.
pub const STARTPOS: &'static str = "rnbqkbnr/pppppppp/8/8/8/8/PPPPPPPP/RNBQKBNR w KQkq - 0 1";

/// Why a position-description string was rejected.
#[derive(Clone, Copy, Debug, PartialEq, Eq, Structural)]
pub enum FenParseError {
    InvalidPosition,
    SideToMove,
    Castling,
    EnPassant,
    HalfMove,
    Ply,
}

/// The mathematical value of a board: its twelve bitsets, the side to
/// move, the castling rights, the en-passant target index (64 for none),
/// the check flag, and the last generated move list.
pub struct BoardV {
    pub bbs: Seq<u64>,
    pub to_move: Color,
    pub castling_rights: u8,
    pub en_passant: u8,
    pub in_check: bool,
    pub moves: Seq<Move>,
}

/// All squares White occupies.
pub open spec fn white_occ(bbs: Seq<u64>) -> u64 {
    bbs[0] | bbs[1] | bbs[2] | bbs[3] | bbs[4] | bbs[5]
}

/// All squares Black occupies.
pub open spec fn black_occ(bbs: Seq<u64>) -> u64 {
    bbs[6] | bbs[7] | bbs[8] | bbs[9] | bbs[10] | bbs[11]
}

/// All occupied squares.
pub open spec fn all_occ(bbs: Seq<u64>) -> u64 {
    white_occ(bbs) | black_occ(bbs)
}

/// All squares a color occupies.
pub open spec fn side_occ(bbs: Seq<u64>, c: Color) -> u64 {
    match c {
        Color::WHITE => white_occ(bbs),
        Color::BLACK => black_occ(bbs),
    }
}

/// Whether some piece of color `c` attacks square `sq`: a leaper table or
/// an on-demand ray from `sq` meets the matching piece bitset.
pub open spec fn attacked_by(bbs: Seq<u64>, sq: u64, c: Color) -> bool {
    let all = all_occ(bbs);
    match c {
        Color::WHITE => (pawn_attack_entry(1, sq) & bbs[5]) != 0 || (knight_attack_entry(sq)
            & bbs[4]) != 0 || (king_attack_entry(sq) & bbs[0]) != 0 || (bishop_rays(sq as int, all)
            & bbs[3]) != 0 || (rook_rays(sq as int, all) & bbs[2]) != 0 || (queen_rays(
            sq as int,
            all,
        ) & bbs[1]) != 0,
        Color::BLACK => (pawn_attack_entry(0, sq) & bbs[11]) != 0 || (knight_attack_entry(sq)
            & bbs[10]) != 0 || (king_attack_entry(sq) & bbs[6]) != 0 || (bishop_rays(
            sq as int,
            all,
        ) & bbs[9]) != 0 || (rook_rays(sq as int, all) & bbs[8]) != 0 || (queen_rays(
            sq as int,
            all,
        ) & bbs[7]) != 0,
    }
}

/// Whether square `sq` is attacked by the given color, or by either color
/// when none is given.
pub open spec fn attacked(bbs: Seq<u64>, sq: u64, color: Option<Color>) -> bool {
    match color {
        Some(c) => attacked_by(bbs, sq, c),
        None => attacked_by(bbs, sq, Color::WHITE) || attacked_by(bbs, sq, Color::BLACK),
    }
}

/// How the occupancy unions read bit by bit: a square is in a side's
/// occupancy exactly when one of its six bitsets holds it.
pub proof fn lemma_occ_bit(bbs: Seq<u64>, j: u64)
    requires
        bbs.len() == 12,
        j < 64,
    ensures
        bit64(white_occ(bbs), j) == (bit64(bbs[0], j) || bit64(bbs[1], j) || bit64(bbs[2], j)
            || bit64(bbs[3], j) || bit64(bbs[4], j) || bit64(bbs[5], j)),
        bit64(black_occ(bbs), j) == (bit64(bbs[6], j) || bit64(bbs[7], j) || bit64(bbs[8], j)
            || bit64(bbs[9], j) || bit64(bbs[10], j) || bit64(bbs[11], j)),
        bit64(all_occ(bbs), j) == (bit64(white_occ(bbs), j) || bit64(black_occ(bbs), j)),
{
    crate::bitboard::lemma_bit64_ops();
}

/// The first bitset at index `i` or beyond whose bit at `sq` is set.
pub open spec fn bb_index_from(bbs: Seq<u64>, sq: u64, i: int) -> Option<int>
    decreases 12 - i,
{
    if i >= 12 {
        None
    } else if bit64(bbs[i], sq) {
        Some(i)
    } else {
        bb_index_from(bbs, sq, i + 1)
    }
}

/// The first bitset whose bit at `sq` is set, if any: which piece stands
/// on the square.
pub open spec fn piece_index_at(bbs: Seq<u64>, sq: u64) -> Option<int> {
    bb_index_from(bbs, sq, 0)
}

proof fn lemma_bb_index_skip(bbs: Seq<u64>, sq: u64, i: int)
    requires
        0 <= i <= 12,
        forall|j: int| 0 <= j < i ==> !bit64(#[trigger] bbs[j], sq),
    ensures
        piece_index_at(bbs, sq) == bb_index_from(bbs, sq, i),
    decreases i,
{
    if i > 0 {
        lemma_bb_index_skip(bbs, sq, i - 1);
    }
}

/// Tracks the current game state.
pub struct Board {
    pub(crate) bitboards: Vec<u64>,
    pub(crate) to_move: Color,
    pub(crate) castling_rights: u8,
    pub(crate) en_passant: Square,
    pub(crate) in_check: bool,
    pub(crate) pseudo_moves: MoveList,
}

impl View for Board {
    type V = BoardV;

    closed spec fn view(&self) -> BoardV {
        BoardV {
            bbs: self.bitboards@,
            to_move: self.to_move,
            castling_rights: self.castling_rights,
            en_passant: self.en_passant@,
            in_check: self.in_check,
            moves: self.pseudo_moves@,
        }
    }
}

/// How the board's concrete fields read as its mathematical value.
pub(crate) proof fn lemma_board_view(b: &Board)
    ensures
        b@.bbs == b.bitboards@,
        b@.to_move == b.to_move,
        b@.castling_rights == b.castling_rights,
        b@.en_passant == b.en_passant@,
        b@.in_check == b.in_check,
        b@.moves == b.pseudo_moves@,
{
}

/// A board value with its move list cleared: the part of the state that
/// move generation and search read. Two boards equal under `core_of` are
/// the same position.
pub open spec fn core_of(v: BoardV) -> BoardV {
    BoardV { moves: Seq::empty(), ..v }
}

impl BoardV {
    /// Structural well-formedness: twelve bitsets and an en-passant index
    /// on the board or equal to the "no square" sentinel.
    pub open spec fn wf(self) -> bool {
        &&& self.bbs.len() == 12
        &&& self.en_passant <= 64
    }

    /// Both kings stand somewhere on the board.
    pub open spec fn has_kings(self) -> bool {
        &&& self.bbs[0] != 0
        &&& self.bbs[6] != 0
    }
}

impl Board {
    /// Get the last generated move list, as a copy.
    pub fn get_move_list(&self) -> (r: MoveList)
        ensures
            r@ == self@.moves,
    {
        let mut out = MoveList::empty();
        let moves = self.pseudo_moves.into_vec();
        let mut i: usize = 0;
        while i < moves.len()
            invariant
                i <= moves@.len(),
                moves@ == self@.moves,
                out@ == moves@.subrange(0, i as int),
            decreases moves@.len() - i,
        {
            out.add(moves[i]);
            i = i + 1;
        }
        assert(out@ =~= self@.moves);
        out
    }

    /// Get the color to move.
    pub fn get_to_move(&self) -> (r: Color)
        ensures
            r == self@.to_move,
    {
        self.to_move
    }

    /// Get whether the king of the color to move is in check. The flag is
    /// valid only immediately after the last applied move.
    pub fn is_in_check(&self) -> (r: bool)
        ensures
            r == self@.in_check,
    {
        self.in_check
    }

    /// Get one of the twelve piece bitsets by its index.
    pub fn get_bitboard(&self, i: usize) -> (r: Bitboard)
        requires
            self@.wf(),
            i < 12,
        ensures
            r@ == self@.bbs[i as int],
    {
        Bitboard::new(self.bitboards[i])
    }

    /// An exact copy of the whole board state, move list included.
    pub fn snapshot(&self) -> (r: Board)
        requires
            self@.wf(),
        ensures
            r@ == self@,
    {
        let mut bbs: Vec<u64> = Vec::new();
        let mut i: usize = 0;
        while i < 12
            invariant
                self@.wf(),
                i <= 12,
                bbs@ == self@.bbs.subrange(0, i as int),
            decreases 12 - i,
        {
            bbs.push(self.bitboards[i]);
            i = i + 1;
        }
        assert(bbs@ =~= self@.bbs);
        let r = Board {
            bitboards: bbs,
            to_move: self.to_move,
            castling_rights: self.castling_rights,
            en_passant: self.en_passant,
            in_check: self.in_check,
            pseudo_moves: MoveList::empty(),
        };
        let mut r = r;
        let moves = self.pseudo_moves.into_vec();
        let mut i: usize = 0;
        while i < moves.len()
            invariant
                i <= moves@.len(),
                moves@ == self@.moves,
                r@.moves == moves@.subrange(0, i as int),
                r@.bbs == self@.bbs,
                r@.to_move == self@.to_move,
                r@.castling_rights == self@.castling_rights,
                r@.en_passant == self@.en_passant,
                r@.in_check == self@.in_check,
            decreases moves@.len() - i,
        {
            r.pseudo_moves.add(moves[i]);
            i = i + 1;
        }
        assert(r@.moves =~= self@.moves);
        assert(r@ =~= self@);
        r
    }

    /// The union of the six White bitsets.
    pub(crate) fn occ_white(&self) -> (r: u64)
        requires
            self@.wf(),
        ensures
            r == white_occ(self@.bbs),
    {
        self.bitboards[0] | self.bitboards[1] | self.bitboards[2] | self.bitboards[3]
            | self.bitboards[4] | self.bitboards[5]
    }

    /// The union of the six Black bitsets.
    pub(crate) fn occ_black(&self) -> (r: u64)
        requires
            self@.wf(),
        ensures
            r == black_occ(self@.bbs),
    {
        self.bitboards[6] | self.bitboards[7] | self.bitboards[8] | self.bitboards[9]
            | self.bitboards[10] | self.bitboards[11]
    }

    /// The union of all twelve bitsets.
    pub(crate) fn occ_all(&self) -> (r: u64)
        requires
            self@.wf(),
        ensures
            r == all_occ(self@.bbs),
    {
        self.occ_white() | self.occ_black()
    }

    /// Get a bitset of all occupied squares.
    pub fn get_all_pieces(&self) -> (r: Bitboard)
        requires
            self@.wf(),
        ensures
            r@ == all_occ(self@.bbs),
    {
        Bitboard::new(self.occ_all())
    }

    /// Get a bitset of all squares White occupies.
    pub fn get_white_pieces(&self) -> (r: Bitboard)
        requires
            self@.wf(),
        ensures
            r@ == white_occ(self@.bbs),
    {
        Bitboard::new(self.occ_white())
    }

    /// Get a bitset of all squares Black occupies.
    pub fn get_black_pieces(&self) -> (r: Bitboard)
        requires
            self@.wf(),
        ensures
            r@ == black_occ(self@.bbs),
    {
        Bitboard::new(self.occ_black())
    }

    /// Check whether a square is attacked: by the given color, or by
    /// either color when none is given.
    pub fn is_attacked(&self, tables: &MoveTables, square: Square, color: Option<Color>) -> (r:
        bool)
        requires
            self@.wf(),
            tables.wf(),
            square@ < 64,
        ensures
            r == attacked(self@.bbs, square@ as u64, color),
    {
        match color {
            Some(Color::WHITE) => self.is_attacked_by_white(tables, square),
            Some(Color::BLACK) => self.is_attacked_by_black(tables, square),
            None => self.is_attacked_by_white(tables, square) || self.is_attacked_by_black(
                tables,
                square,
            ),
        }
    }

    fn is_attacked_by_white(&self, tables: &MoveTables, square: Square) -> (r: bool)
        requires
            self@.wf(),
            tables.wf(),
            square@ < 64,
        ensures
            r == attacked_by(self@.bbs, square@ as u64, Color::WHITE),
    {
        let sq = square.to_index();
        // pawns
        if tables.pawn_attacks[1][sq] & self.bitboards[5] != 0 {
            return true;
        }
        // knights
        if tables.knight_attacks[sq] & self.bitboards[4] != 0 {
            return true;
        }
        // king
        if tables.king_attacks[sq] & self.bitboards[0] != 0 {
            return true;
        }
        let all_pieces = self.get_all_pieces();
        // bishops
        if get_bishop_rays(square, all_pieces).to_int() & self.bitboards[3] != 0 {
            return true;
        }
        // rooks
        if get_rook_rays(square, all_pieces).to_int() & self.bitboards[2] != 0 {
            return true;
        }
        // queens
        if get_queen_rays(square, all_pieces).to_int() & self.bitboards[1] != 0 {
            return true;
        }
        false
    }

    fn is_attacked_by_black(&self, tables: &MoveTables, square: Square) -> (r: bool)
        requires
            self@.wf(),
            tables.wf(),
            square@ < 64,
        ensures
            r == attacked_by(self@.bbs, square@ as u64, Color::BLACK),
    {
        let sq = square.to_index();
        // pawns
        if tables.pawn_attacks[0][sq] & self.bitboards[11] != 0 {
            return true;
        }
        // knights
        if tables.knight_attacks[sq] & self.bitboards[10] != 0 {
            return true;
        }
        // king
        if tables.king_attacks[sq] & self.bitboards[6] != 0 {
            return true;
        }
        let all_pieces = self.get_all_pieces();
        // bishops
        if get_bishop_rays(square, all_pieces).to_int() & self.bitboards[9] != 0 {
            return true;
        }
        // rooks
        if get_rook_rays(square, all_pieces).to_int() & self.bitboards[8] != 0 {
            return true;
        }
        // queens
        if get_queen_rays(square, all_pieces).to_int() & self.bitboards[7] != 0 {
            return true;
        }
        false
    }

    /// Generate a bitset of all squares attacked by a color, or by either
    /// color when none is given.
    pub fn get_attacked(&self, tables: &MoveTables, color: Option<Color>) -> (r: Bitboard)
        requires
            self@.wf(),
            tables.wf(),
        ensures
            forall|j: u64| j < 64 ==> #[trigger] bit64(r@, j) == attacked(self@.bbs, j, color),
    {
        proof {
            crate::bitboard::lemma_bit64_ops();
        }
        let mut bb: u64 = 0;
        let mut i: u8 = 0;
        while i < 64
            invariant
                self@.wf(),
                tables.wf(),
                i <= 64,
                forall|j: u64| j < i ==> #[trigger] bit64(bb, j) == attacked(self@.bbs, j, color),
                forall|j: u64| i <= j < 64 ==> !#[trigger] bit64(bb, j),
            decreases 64 - i,
        {
            proof {
                crate::bitboard::lemma_bit64_ops();
            }
            if self.is_attacked(tables, Square::new(i), color) {
                bb = bb | (1u64 << i);
            }
            i = i + 1;
        }
        Bitboard::new(bb)
    }

    /// Get the index of the bitset holding a piece on the square, if any.
    pub fn get_bitboard_index_at_square(&self, square: Square) -> (r: Option<usize>)
        requires
            self@.wf(),
            square@ < 64,
        ensures
            r matches Some(i) ==> piece_index_at(self@.bbs, square@ as u64) == Some(i as int) && i
                < 12,
            r is None ==> piece_index_at(self@.bbs, square@ as u64) is None,
    {
        let mut i: usize = 0;
        while i < 12
            invariant
                self@.wf(),
                square@ < 64,
                i <= 12,
                forall|j: int| 0 <= j < i ==> !bit64(#[trigger] self@.bbs[j], square@ as u64),
            decreases 12 - i,
        {
            if Bitboard::new(self.bitboards[i]).get_bit_by_square(square) == 1 {
                proof {
                    lemma_bb_index_skip(self@.bbs, square@ as u64, i as int);
                }
                return Some(i);
            }
            i = i + 1;
        }
        proof {
            lemma_bb_index_skip(self@.bbs, square@ as u64, 12);
        }
        None
    }

    /// Remove the piece on a square, if any.
    pub fn del_piece(&mut self, square: Square)
        requires
            old(self)@.wf(),
            square@ < 64,
        ensures
            final(self)@ == (BoardV {
                bbs: del_at(old(self)@.bbs, square@ as u64),
                ..old(self)@
            }),
            final(self)@.wf(),
    {
        let i = match self.get_bitboard_index_at_square(square) {
            None => {
                return ;
            },
            Some(p) => p,
        };
        let mut b = Bitboard::new(self.bitboards[i]);
        b.pop_bit_by_square(square);
        self.bitboards[i] = b.to_int();
        assert(self@.bbs =~= del_at(old(self)@.bbs, square@ as u64));
    }
}

/// The bitsets after removing whatever piece stands on a square.
pub open spec fn del_at(bbs: Seq<u64>, sq: u64) -> Seq<u64> {
    match piece_index_at(bbs, sq) {
        None => bbs,
        Some(i) => bbs.update(i, bbs[i] & !(1u64 << sq)),
    }
}

/// The bitsets after setting the square's bit in bitset `i`.
pub open spec fn set_at(bbs: Seq<u64>, i: int, sq: u64) -> Seq<u64> {
    bbs.update(i, bbs[i] | (1u64 << sq))
}

/// The bitsets after clearing the square's bit in bitset `i`.
pub open spec fn pop_at(bbs: Seq<u64>, i: int, sq: u64) -> Seq<u64> {
    bbs.update(i, bbs[i] & !(1u64 << sq))
}

/// The bitsets after moving a set bit of bitset `i` from `s` to `t`, a
/// no-op unless `s` is set and `t` is clear there.
pub open spec fn move_bit_at(bbs: Seq<u64>, i: int, s: u64, t: u64) -> Seq<u64> {
    if bit64(bbs[i], s) && !bit64(bbs[i], t) {
        bbs.update(i, (bbs[i] & !(1u64 << s)) | (1u64 << t))
    } else {
        bbs
    }
}

/// Castling rights after a capture on `target`: taking a rook on its home
/// square clears the matching right.
pub open spec fn rights_after_capture(bbs: Seq<u64>, target: u8, cr: u8) -> u8 {
    match piece_index_at(bbs, target as u64) {
        Some(i) => if i == 2 {
            if target == 56 {
                cr & 11
            } else if target == 63 {
                cr & 7
            } else {
                cr
            }
        } else if i == 8 {
            if target == 0 {
                cr & 14
            } else if target == 7 {
                cr & 13
            } else {
                cr
            }
        } else {
            cr
        },
        None => cr,
    }
}

/// Castling rights after the piece of bitset `oi` moves away from
/// `origin`: moving a king clears both of its side's rights, moving a
/// rook off its home square clears the matching one.
pub open spec fn rights_after_move(oi: int, origin: u8, cr: u8) -> u8 {
    if oi == 2 {
        if origin == 56 {
            cr & 11
        } else if origin == 63 {
            cr & 7
        } else {
            cr
        }
    } else if oi == 8 {
        if origin == 0 {
            cr & 14
        } else if origin == 7 {
            cr & 13
        } else {
            cr
        }
    } else if oi == 0 {
        cr & 3
    } else if oi == 6 {
        cr & 12
    } else {
        cr
    }
}

/// The bitset a promotion piece of the given color lands in.
pub open spec fn promo_bb_index(p: Piece, c: Color) -> int {
    piece_index(p) + 6 * color_index(c)
}

/// The special-tag effects of a move: the bitsets, castling rights and
/// en-passant target they leave behind, before the moving piece itself is
/// relocated.
pub open spec fn spec_apply_special(
    bbs: Seq<u64>,
    cr: u8,
    c: Color,
    origin: u64,
    target: u64,
    s: SpecialMove,
) -> (Seq<u64>, u8, u8) {
    match s {
        SpecialMove::Quiet => (bbs, cr, 64u8),
        SpecialMove::DoublePush => (
            bbs,
            cr,
            match c {
                Color::WHITE => if origin >= 8 {
                    (origin - 8) as u8
                } else {
                    64u8
                },
                Color::BLACK => if origin < 56 {
                    (origin + 8) as u8
                } else {
                    64u8
                },
            },
        ),
        SpecialMove::KingsideCastle => match c {
            Color::WHITE => (move_bit_at(bbs, 2, 63, 61), cr & 3, 64u8),
            Color::BLACK => (move_bit_at(bbs, 8, 7, 5), cr & 12, 64u8),
        },
        SpecialMove::QueensideCastle => match c {
            Color::WHITE => (move_bit_at(bbs, 2, 56, 59), cr & 3, 64u8),
            Color::BLACK => (move_bit_at(bbs, 8, 0, 3), cr & 12, 64u8),
        },
        SpecialMove::Capture => (del_at(bbs, target), cr, 64u8),
        SpecialMove::EnPassant => match c {
            Color::WHITE => (
                if target < 56 {
                    pop_at(bbs, 11, (target + 8) as u64)
                } else {
                    bbs
                },
                cr,
                64u8,
            ),
            Color::BLACK => (
                if target >= 8 {
                    pop_at(bbs, 5, (target - 8) as u64)
                } else {
                    bbs
                },
                cr,
                64u8,
            ),
        },
        SpecialMove::Promotion(p) => match c {
            Color::WHITE => (set_at(pop_at(bbs, 5, origin), promo_bb_index(p, c), target), cr, 64u8),
            Color::BLACK => (
                set_at(pop_at(bbs, 11, origin), promo_bb_index(p, c), target),
                cr,
                64u8,
            ),
        },
        SpecialMove::PromotionCapture(p) => (
            set_at(del_at(del_at(bbs, target), origin), promo_bb_index(p, c), target),
            cr,
            64u8,
        ),
    }
}

/// The final step of applying a move: recompute the check flag of the
/// side that did not move, test whether the mover's own king is left
/// attacked, and flip the side to move exactly when the move is legal.
/// A move that removed either king from the board is reported illegal.
pub open spec fn spec_finish(v: BoardV, bbs: Seq<u64>, cr: u8, ep: u8) -> (BoardV, bool) {
    let mover = v.to_move;
    let own_k = match mover {
        Color::WHITE => bbs[0],
        Color::BLACK => bbs[6],
    };
    let opp_k = match mover {
        Color::WHITE => bbs[6],
        Color::BLACK => bbs[0],
    };
    if opp_k == 0 {
        (
            BoardV {
                bbs,
                to_move: mover,
                castling_rights: cr,
                en_passant: ep,
                in_check: false,
                moves: v.moves,
            },
            false,
        )
    } else {
        let chk = attacked_by(bbs, lsb_index(opp_k) as u64, mover);
        let base = BoardV {
            bbs,
            to_move: mover,
            castling_rights: cr,
            en_passant: ep,
            in_check: chk,
            moves: v.moves,
        };
        if own_k == 0 {
            (base, false)
        } else if attacked_by(bbs, lsb_index(own_k) as u64, opposite(mover)) {
            (base, false)
        } else {
            (BoardV { to_move: opposite(mover), ..base }, true)
        }
    }
}

/// The bitsets and castling rights after the moving piece is relocated
/// from the move's origin to its target, unless the move is a promotion
/// (whose tag effects already placed the new piece).
pub open spec fn spec_relocate(bbs: Seq<u64>, cr: u8, m: Move) -> (Seq<u64>, u8) {
    match special_of_code(move_code(m@)) {
        SpecialMove::Promotion(_) => (bbs, cr),
        SpecialMove::PromotionCapture(_) => (bbs, cr),
        _ => match piece_index_at(bbs, move_origin(m@) as u64) {
            Some(oi) => (
                move_bit_at(bbs, oi, move_origin(m@) as u64, move_target(m@) as u64),
                rights_after_move(oi, move_origin(m@), cr),
            ),
            None => (bbs, cr),
        },
    }
}

/// The board a move leaves behind and whether the move was legal:
/// castling rights narrowed by any capture of a home rook, the special
/// tag's effects applied, the moving piece relocated unless the move is a
/// promotion, and the mover's king tested for attack.
pub open spec fn spec_make_move(v: BoardV, m: Move) -> (BoardV, bool) {
    let origin = move_origin(m@) as u64;
    let target = move_target(m@) as u64;
    let s = special_of_code(move_code(m@));
    let cr1 = rights_after_capture(v.bbs, move_target(m@), v.castling_rights);
    let eff = spec_apply_special(v.bbs, cr1, v.to_move, origin, target, s);
    let relocated = spec_relocate(eff.0, eff.1, m);
    spec_finish(v, relocated.0, relocated.1, eff.2)
}

/// Whether a move is legal on a board: applying it does not leave the
/// mover's own king attacked.
pub open spec fn spec_legal(v: BoardV, m: Move) -> bool {
    spec_make_move(v, m).1
}

/// Whether a move is legal only depends on the board's bitsets, side to
/// move, castling rights and en-passant target, never on its move list or
/// check flag.
pub proof fn lemma_legal_core(v1: BoardV, v2: BoardV, m: Move)
    requires
        v1.bbs == v2.bbs,
        v1.to_move == v2.to_move,
        v1.castling_rights == v2.castling_rights,
        v1.en_passant == v2.en_passant,
    ensures
        spec_legal(v1, m) == spec_legal(v2, m),
{
}

/// Applying a move reads only the position fields: boards equal in
/// everything but their move lists get position-equal results and the
/// same legality verdict.
pub proof fn lemma_make_move_core(v1: BoardV, v2: BoardV, m: Move)
    requires
        v1.bbs == v2.bbs,
        v1.to_move == v2.to_move,
        v1.castling_rights == v2.castling_rights,
        v1.en_passant == v2.en_passant,
    ensures
        spec_make_move(v1, m).0.bbs == spec_make_move(v2, m).0.bbs,
        spec_make_move(v1, m).0.to_move == spec_make_move(v2, m).0.to_move,
        spec_make_move(v1, m).0.castling_rights == spec_make_move(v2, m).0.castling_rights,
        spec_make_move(v1, m).0.en_passant == spec_make_move(v2, m).0.en_passant,
        spec_make_move(v1, m).0.in_check == spec_make_move(v2, m).0.in_check,
        spec_make_move(v1, m).1 == spec_make_move(v2, m).1,
{
}

/// One 4-bit rights value is a subset of another.
pub open spec fn rights_within(a: u8, b: u8) -> bool {
    a & b == a
}

proof fn lemma_mask_within(cr: u8, m: u8)
    ensures
        rights_within(cr & m, cr),
{
    assert((cr & m) & cr == cr & m) by (bit_vector);
}

proof fn lemma_within_trans(a: u8, b: u8, c: u8)
    requires
        rights_within(a, b),
        rights_within(b, c),
    ensures
        rights_within(a, c),
{
    assert(a & b == a && b & c == b ==> a & c == a) by (bit_vector);
}

proof fn lemma_within_refl(a: u8)
    ensures
        rights_within(a, a),
{
    assert(a & a == a) by (bit_vector);
}

/// Castling rights are monotonically non-increasing: applying any move,
/// legal or not, only ever clears rights bits, never sets one.
pub proof fn lemma_castling_rights_monotonic(v: BoardV, m: Move)
    ensures
        rights_within(spec_make_move(v, m).0.castling_rights, v.castling_rights),
{
    let cr0 = v.castling_rights;
    let target = move_target(m@);
    let origin = move_origin(m@);
    let s = special_of_code(move_code(m@));
    let cr1 = rights_after_capture(v.bbs, target, cr0);
    assert(rights_within(cr1, cr0)) by {
        lemma_within_refl(cr0);
        lemma_mask_within(cr0, 11);
        lemma_mask_within(cr0, 7);
        lemma_mask_within(cr0, 14);
        lemma_mask_within(cr0, 13);
    }
    let eff = spec_apply_special(
        v.bbs,
        cr1,
        v.to_move,
        origin as u64,
        target as u64,
        s,
    );
    assert(rights_within(eff.1, cr1)) by {
        lemma_within_refl(cr1);
        lemma_mask_within(cr1, 3);
        lemma_mask_within(cr1, 12);
    }
    let rel = spec_relocate(eff.0, eff.1, m);
    assert(rights_within(rel.1, eff.1)) by {
        lemma_within_refl(eff.1);
        lemma_mask_within(eff.1, 11);
        lemma_mask_within(eff.1, 7);
        lemma_mask_within(eff.1, 14);
        lemma_mask_within(eff.1, 13);
        lemma_mask_within(eff.1, 3);
        lemma_mask_within(eff.1, 12);
    }
    assert(spec_make_move(v, m).0.castling_rights == rel.1);
    lemma_within_trans(rel.1, eff.1, cr1);
    lemma_within_trans(rel.1, cr1, cr0);
}

/// The en-passant target lives for exactly one move: applying a double
/// push sets it to the square passed over, and applying anything else
/// clears it.
pub proof fn lemma_en_passant_lifetime(v: BoardV, m: Move)
    ensures
        !(special_of_code(move_code(m@)) is DoublePush) ==> spec_make_move(v, m).0.en_passant
            == NO_SQUARE_INDEX,
        special_of_code(move_code(m@)) is DoublePush ==> {
            let origin = move_origin(m@) as u64;
            match v.to_move {
                Color::WHITE => spec_make_move(v, m).0.en_passant == if origin >= 8 {
                    (origin - 8) as u8
                } else {
                    NO_SQUARE_INDEX
                },
                Color::BLACK => spec_make_move(v, m).0.en_passant == if origin < 56 {
                    (origin + 8) as u8
                } else {
                    NO_SQUARE_INDEX
                },
            }
        },
{
}

/// Whether a byte is one of the whitespace characters that separate the
/// fields of a position-description string.
pub open spec fn ws_byte(b: u8) -> bool {
    b == 32 || b == 9 || b == 10 || b == 13
}

/// The first index at or after `i` holding a non-whitespace byte, or the
/// length when only whitespace is left.
pub open spec fn skip_ws_from(bytes: Seq<u8>, i: int) -> int
    decreases bytes.len() - i,
{
    if i < 0 || i >= bytes.len() {
        bytes.len() as int
    } else if ws_byte(bytes[i]) {
        skip_ws_from(bytes, i + 1)
    } else {
        i
    }
}

/// The first index at or after `i` holding a whitespace byte, or the
/// length when the token runs to the end.
pub open spec fn token_end_from(bytes: Seq<u8>, i: int) -> int
    decreases bytes.len() - i,
{
    if i < 0 || i >= bytes.len() {
        bytes.len() as int
    } else if ws_byte(bytes[i]) {
        i
    } else {
        token_end_from(bytes, i + 1)
    }
}

/// The bounds of the first whitespace-separated field at or after `from`.
pub open spec fn spec_next_token(bytes: Seq<u8>, from: int) -> Option<(int, int)> {
    let s = skip_ws_from(bytes, from);
    if s >= bytes.len() {
        None
    } else {
        Some((s, token_end_from(bytes, s + 1)))
    }
}

/// The bounds of the `n`th whitespace-separated field at or after `from`.
pub open spec fn spec_nth_token(bytes: Seq<u8>, n: int, from: int) -> Option<(int, int)>
    decreases n,
{
    if n < 0 {
        None
    } else {
        match spec_next_token(bytes, from) {
            None => None,
            Some(se) => if n == 0 {
                Some(se)
            } else {
                spec_nth_token(bytes, n - 1, se.1)
            },
        }
    }
}

/// The bitset index a piece letter selects, if it is one of the twelve.
pub open spec fn spec_piece_char(c: u8) -> Option<int> {
    if c == 75 {
        Some(0int)
    } else if c == 81 {
        Some(1int)
    } else if c == 82 {
        Some(2int)
    } else if c == 66 {
        Some(3int)
    } else if c == 78 {
        Some(4int)
    } else if c == 80 {
        Some(5int)
    } else if c == 107 {
        Some(6int)
    } else if c == 113 {
        Some(7int)
    } else if c == 114 {
        Some(8int)
    } else if c == 112 {
        Some(11int)
    } else if c == 98 {
        Some(9int)
    } else if c == 110 {
        Some(10int)
    } else {
        None
    }
}

/// The twelve bitsets the board field of a position description builds,
/// walked byte by byte from square index 0: a piece letter sets its bit
/// and advances one square, a digit skips that many squares, a slash is
/// ignored, and anything else (or a piece past the last square) fails.
pub open spec fn spec_board_field(
    bytes: Seq<u8>,
    k: int,
    end: int,
    bbs: Seq<u64>,
    index: u64,
) -> Option<Seq<u64>>
    decreases end - k,
{
    if k >= end {
        Some(bbs)
    } else {
        let c = bytes[k];
        match spec_piece_char(c) {
            Some(i) => if index >= 64 {
                None
            } else {
                spec_board_field(
                    bytes,
                    k + 1,
                    end,
                    bbs.update(i, bbs[i] | (1u64 << index)),
                    (index + 1) as u64,
                )
            },
            None => if 48 <= c && c <= 57 {
                spec_board_field(
                    bytes,
                    k + 1,
                    end,
                    bbs,
                    if index <= 64 {
                        (index + (c - 48)) as u64
                    } else {
                        index
                    },
                )
            } else if c == 47 {
                spec_board_field(bytes, k + 1, end, bbs, index)
            } else {
                None
            },
        }
    }
}

/// Whether every byte of the castling field is one of its five letters.
pub open spec fn castling_field_ok(bytes: Seq<u8>, s: int, e: int) -> bool {
    forall|k: int|
        s <= k < e ==> ((#[trigger] bytes[k]) == 75 || bytes[k] == 81 || bytes[k] == 107
            || bytes[k] == 113 || bytes[k] == 45)
}

/// Whether the byte `c` occurs in `bytes[s..e]`.
pub open spec fn has_byte(bytes: Seq<u8>, s: int, e: int, c: u8) -> bool {
    exists|k: int| s <= k < e && (#[trigger] bytes[k]) == c
}

/// The rights value the castling field encodes: one bit per letter found,
/// or none for the lone dash.
pub open spec fn spec_castling_rights(bytes: Seq<u8>, s: int, e: int) -> u8 {
    if e - s == 1 && bytes[s] == 45 {
        0u8
    } else {
        ((if has_byte(bytes, s, e, 75) {
            8u8
        } else {
            0u8
        }) + (if has_byte(bytes, s, e, 81) {
            4u8
        } else {
            0u8
        }) + (if has_byte(bytes, s, e, 107) {
            2u8
        } else {
            0u8
        }) + (if has_byte(bytes, s, e, 113) {
            1u8
        } else {
            0u8
        })) as u8
    }
}

/// The en-passant target the field names: 64 for the lone dash, the
/// square index for a file letter and rank digit, or nothing for any
/// other field.
pub open spec fn spec_ep_field(bytes: Seq<u8>, s: int, e: int) -> Option<u8> {
    if e - s == 1 && bytes[s] == 45 {
        Some(64u8)
    } else if e - s >= 2 && 97 <= bytes[s] <= 104 && 49 <= bytes[s + 1] <= 56 {
        Some(((7 - (bytes[s + 1] - 49)) * 8 + (bytes[s] - 97)) as u8)
    } else {
        None
    }
}

/// A decimal accumulation over `bytes[k..e]`, failing on a non-digit or
/// on a value past `max`.
pub open spec fn uint_fold(bytes: Seq<u8>, k: int, e: int, acc: u64, max: u64) -> Option<u64>
    decreases e - k,
{
    if k >= e {
        Some(acc)
    } else {
        let c = bytes[k];
        if c < 48 || c > 57 {
            None
        } else {
            let d = (c - 48) as u64;
            if acc > max / 10 || (acc == max / 10 && d > max % 10) {
                None
            } else {
                uint_fold(bytes, k + 1, e, (acc * 10 + d) as u64, max)
            }
        }
    }
}

/// The number a run of digits with one optional leading plus sign names,
/// when it stays within `max`.
pub open spec fn spec_uint_field(bytes: Seq<u8>, s: int, e: int, max: u64) -> Option<u64> {
    let s2 = if s < e && bytes[s] == 43 {
        s + 1
    } else {
        s
    };
    if s2 >= e {
        None
    } else {
        uint_fold(bytes, s2, e, 0, max)
    }
}

/// The exact meaning of a position-description string: the board value
/// its six fields describe, or the error kind of the first field at
/// fault.
pub open spec fn spec_parse_fen(bytes: Seq<u8>) -> Result<BoardV, FenParseError> {
    match spec_nth_token(bytes, 0, 0) {
        None => Err(FenParseError::InvalidPosition),
        Some(t0) => match spec_board_field(bytes, t0.0, t0.1, Seq::new(12, |i: int| 0u64), 0) {
            None => Err(FenParseError::InvalidPosition),
            Some(bbs) => if popcount(bbs[0]) != 1 || popcount(bbs[6]) != 1 {
                Err(FenParseError::InvalidPosition)
            } else {
                match spec_nth_token(bytes, 1, 0) {
                    None => Err(FenParseError::SideToMove),
                    Some(t1) => if !(t1.1 - t1.0 == 1 && (bytes[t1.0] == 119 || bytes[t1.0]
                        == 98)) {
                        Err(FenParseError::SideToMove)
                    } else {
                        let to_move = if bytes[t1.0] == 119 {
                            Color::WHITE
                        } else {
                            Color::BLACK
                        };
                        match spec_nth_token(bytes, 2, 0) {
                            None => Err(FenParseError::Castling),
                            Some(t2) => if !castling_field_ok(bytes, t2.0, t2.1) {
                                Err(FenParseError::Castling)
                            } else {
                                match spec_nth_token(bytes, 3, 0) {
                                    None => Err(FenParseError::EnPassant),
                                    Some(t3) => match spec_ep_field(bytes, t3.0, t3.1) {
                                        None => Err(FenParseError::EnPassant),
                                        Some(ep) => match spec_nth_token(bytes, 4, 0) {
                                            None => Err(FenParseError::HalfMove),
                                            Some(t4) => if spec_uint_field(
                                                bytes,
                                                t4.0,
                                                t4.1,
                                                255,
                                            ) is None {
                                                Err(FenParseError::HalfMove)
                                            } else {
                                                match spec_nth_token(bytes, 5, 0) {
                                                    None => Err(FenParseError::Ply),
                                                    Some(t5) => match spec_uint_field(
                                                        bytes,
                                                        t5.0,
                                                        t5.1,
                                                        0xFFFFFFFFFFFFFFFF,
                                                    ) {
                                                        None => Err(FenParseError::Ply),
                                                        Some(v) => if v == 0 {
                                                            Err(FenParseError::Ply)
                                                        } else {
                                                            Ok(
                                                                BoardV {
                                                                    bbs,
                                                                    to_move,
                                                                    castling_rights:
                                                                        spec_castling_rights(
                                                                        bytes,
                                                                        t2.0,
                                                                        t2.1,
                                                                    ),
                                                                    en_passant: ep,
                                                                    in_check: false,
                                                                    moves: Seq::empty(),
                                                                },
                                                            )
                                                        },
                                                    },
                                                }
                                            },
                                        },
                                    },
                                }
                            },
                        }
                    },
                }
            },
        },
    }
}

/// Every set bit of `b` lies below index `n`.
pub open spec fn bits_below(b: u64, n: u64) -> bool {
    forall|j: u64| j < 64 && #[trigger] bit64(b, j) ==> j < n
}

/// No square is set in more than one of the twelve bitsets.
pub open spec fn bbs_disjoint(bbs: Seq<u64>) -> bool {
    forall|a: int, b: int| 0 <= a < b < 12 ==> #[trigger] (bbs[a] & bbs[b]) == 0
}

proof fn lemma_board_field_keeps_disjoint(
    bytes: Seq<u8>,
    k: int,
    end: int,
    bbs: Seq<u64>,
    index: u64,
)
    requires
        bbs.len() == 12,
        forall|a: int| 0 <= a < 12 ==> bits_below(#[trigger] bbs[a], index),
        bbs_disjoint(bbs),
        spec_board_field(bytes, k, end, bbs, index) is Some,
    ensures
        spec_board_field(bytes, k, end, bbs, index) matches Some(r) && r.len() == 12
            && bbs_disjoint(r),
    decreases end - k,
{
    crate::bitboard::lemma_bit64_ops();
    if k >= end {
    } else {
        let c = bytes[k];
        match spec_piece_char(c) {
            Some(i) => {
                let next = bbs.update(i, bbs[i] | (1u64 << index));
                assert forall|a: int, b: int| 0 <= a < b < 12 implies #[trigger] (next[a]
                    & next[b]) == 0 by {
                    if a == i || b == i {
                        let o = if a == i {
                            b
                        } else {
                            a
                        };
                        assert forall|j: u64| j < 64 implies !bit64(next[a] & next[b], j) by {
                            if j == index {
                                assert(!bit64(bbs[o], j));
                            } else {
                                assert(bit64(bbs[a] & bbs[b], j) == false);
                            }
                        }
                        crate::bitboard::lemma_bit64_ext(next[a] & next[b], 0);
                    } else {
                        assert(next[a] & next[b] == bbs[a] & bbs[b]);
                    }
                }
                assert forall|a: int| 0 <= a < 12 implies bits_below(
                    #[trigger] next[a],
                    (index + 1) as u64,
                ) by {
                    assert forall|j: u64| j < 64 && #[trigger] bit64(next[a], j) implies j < index
                        + 1 by {
                        if a == i && j == index {
                        } else {
                            assert(bit64(bbs[a], j));
                        }
                    }
                }
                lemma_board_field_keeps_disjoint(bytes, k + 1, end, next, (index + 1) as u64);
            },
            None => {
                if 48 <= c && c <= 57 {
                    let next_index = if index <= 64 {
                        (index + (c - 48)) as u64
                    } else {
                        index
                    };
                    assert forall|a: int| 0 <= a < 12 implies bits_below(
                        #[trigger] bbs[a],
                        next_index,
                    ) by {
                        assert(index <= next_index);
                    }
                    lemma_board_field_keeps_disjoint(bytes, k + 1, end, bbs, next_index);
                } else {
                    lemma_board_field_keeps_disjoint(bytes, k + 1, end, bbs, index);
                }
            },
        }
    }
}

/// A loaded position's twelve bitsets are pairwise disjoint: the board
/// field places at most one piece on each square.
pub proof fn lemma_loaded_bitsets_disjoint(bytes: Seq<u8>)
    requires
        spec_parse_fen(bytes) is Ok,
    ensures
        spec_parse_fen(bytes) matches Ok(v) && bbs_disjoint(v.bbs),
{
    crate::bitboard::lemma_bit64_ops();
    let t0 = spec_nth_token(bytes, 0, 0).unwrap();
    let zeros = Seq::new(12, |i: int| 0u64);
    assert(forall|a: int| 0 <= a < 12 ==> bits_below(#[trigger] zeros[a], 0));
    assert forall|a: int, b: int| 0 <= a < b < 12 implies #[trigger] (zeros[a] & zeros[b])
        == 0 by {
        assert(zeros[a] == 0 && zeros[b] == 0);
        assert(0u64 & 0u64 == 0) by (bit_vector);
    }
    lemma_board_field_keeps_disjoint(bytes, t0.0, t0.1, zeros, 0);
}

/// Whether a byte is one of the whitespace characters that separate the
/// fields of a position-description string.
pub(crate) fn is_ws(b: u8) -> (r: bool)
    ensures
        r == ws_byte(b),
{
    b == 32 || b == 9 || b == 10 || b == 13
}

/// The first whitespace-separated field of `bytes` starting at or after
/// `from`, or `None` when only whitespace is left.
pub(crate) fn next_token_from(bytes: &[u8], from: usize) -> (r: Option<(usize, usize)>)
    requires
        from <= bytes@.len(),
    ensures
        r matches Some(se) ==> from <= se.0 < se.1 <= bytes@.len(),
        r is None ==> spec_next_token(bytes@, from as int) is None,
        r matches Some(se) ==> spec_next_token(bytes@, from as int) == Some(
            (se.0 as int, se.1 as int),
        ),
{
    let len = bytes.len();
    let mut i = from;
    while i < len
        invariant
            from <= i <= len,
            len == bytes@.len(),
            skip_ws_from(bytes@, from as int) == skip_ws_from(bytes@, i as int),
        decreases len - i,
    {
        if is_ws(bytes[i]) {
            i = i + 1;
        } else {
            let start = i;
            let mut j = i + 1;
            while j < len && !is_ws(bytes[j])
                invariant
                    start < j <= len,
                    len == bytes@.len(),
                    token_end_from(bytes@, start as int + 1) == token_end_from(bytes@, j as int),
                decreases len - j,
            {
                j = j + 1;
            }
            assert(token_end_from(bytes@, start as int + 1) == j);
            return Some((start, j));
        }
    }
    None
}

/// The bounds of the `n`th whitespace-separated field of `bytes`,
/// counting from zero, or `None` when there are not that many fields.
pub(crate) fn nth_token(bytes: &[u8], n: usize) -> (r: Option<(usize, usize)>)
    ensures
        r matches Some(se) ==> se.0 < se.1 <= bytes@.len(),
        r is None ==> spec_nth_token(bytes@, n as int, 0) is None,
        r matches Some(se) ==> spec_nth_token(bytes@, n as int, 0) == Some(
            (se.0 as int, se.1 as int),
        ),
{
    let mut pos: usize = 0;
    let mut count: usize = 0;
    while count <= n
        invariant
            pos <= bytes@.len(),
            count <= n,
            spec_nth_token(bytes@, n as int, 0) == spec_nth_token(
                bytes@,
                n as int - count,
                pos as int,
            ),
        decreases bytes@.len() - pos,
    {
        match next_token_from(bytes, pos) {
            None => {
                return None;
            },
            Some((s, e)) => {
                if count == n {
                    return Some((s, e));
                }
                count = count + 1;
                pos = e;
            },
        }
    }
    None
}

/// The bitset index a piece letter selects, if it is one of the twelve.
fn piece_char_index(c: u8) -> (r: Option<usize>)
    ensures
        r matches Some(i) ==> i < 12 && spec_piece_char(c) == Some(i as int),
        r is None ==> spec_piece_char(c) is None,
{
    match c {
        75 => Some(0),  // K
        81 => Some(1),  // Q
        82 => Some(2),  // R
        66 => Some(3),  // B
        78 => Some(4),  // N
        80 => Some(5),  // P
        107 => Some(6),  // k
        113 => Some(7),  // q
        114 => Some(8),  // r
        98 => Some(9),  // b
        110 => Some(10),  // n
        112 => Some(11),  // p
        _ => None,
    }
}

/// A non-negative integer read from a run of decimal digits, with one
/// optional leading plus sign, or `None` when the run is empty, holds any
/// other byte, or exceeds `max`.
fn parse_uint(bytes: &[u8], start: usize, end: usize, max: u64) -> (r: Option<u64>)
    requires
        start <= end <= bytes@.len(),
    ensures
        r matches Some(v) ==> v <= max,
        r == spec_uint_field(bytes@, start as int, end as int, max),
{
    let mut i = start;
    if i < end && bytes[i] == 43 {
        i = i + 1;
    }
    if i >= end {
        return None;
    }
    let ghost i0 = i as int;
    let mut acc: u64 = 0;
    while i < end
        invariant
            start <= i <= end <= bytes@.len(),
            acc <= max,
            uint_fold(bytes@, i0, end as int, 0, max) == uint_fold(
                bytes@,
                i as int,
                end as int,
                acc,
                max,
            ),
            spec_uint_field(bytes@, start as int, end as int, max) == uint_fold(
                bytes@,
                i0,
                end as int,
                0,
                max,
            ),
        decreases end - i,
    {
        let c = bytes[i];
        if c < 48 || c > 57 {
            return None;
        }
        let d = (c - 48) as u64;
        if acc > max / 10 || (acc == max / 10 && d > max % 10) {
            return None;
        }
        acc = acc * 10 + d;
        i = i + 1;
    }
    Some(acc)
}

/// The board at the start of a game, as a mathematical value.
pub open spec fn startpos_board() -> BoardV {
    BoardV {
        bbs: seq![
            0x1000000000000000u64,
            0x0800000000000000u64,
            0x8100000000000000u64,
            0x2400000000000000u64,
            0x4200000000000000u64,
            0x00FF000000000000u64,
            0x10u64,
            0x08u64,
            0x81u64,
            0x24u64,
            0x42u64,
            0xFF00u64,
        ],
        to_move: Color::WHITE,
        castling_rights: 15,
        en_passant: 64,
        in_check: false,
        moves: Seq::empty(),
    }
}

impl Board {
    /// Create a new board state from a position-description string with
    /// the standard six fields: board, side to move, castling rights,
    /// en-passant target, half-move clock and move number. The result is
    /// exactly what `spec_parse_fen` says of the string's bytes: a
    /// malformed string is rejected with the error kind of the field at
    /// fault, and an accepted board carries exactly one king per side.
    pub fn new(fen: &str) -> (r: Result<Board, FenParseError>)
        ensures
            r matches Ok(b) ==> {
                &&& b@.wf()
                &&& b@.has_kings()
                &&& popcount(b@.bbs[0]) == 1
                &&& popcount(b@.bbs[6]) == 1
                &&& b@.castling_rights < 16
                &&& !b@.in_check
                &&& b@.moves.len() == 0
            },
            r matches Ok(b) ==> (spec_parse_fen(fen.spec_bytes()) matches Ok(v) && b@ == v),
            r matches Err(e) ==> spec_parse_fen(fen.spec_bytes()) == Err::<BoardV, FenParseError>(
                e,
            ),
    {
        Board::new_from_bytes(fen.as_bytes())
    }

    /// The same parse, from the string's bytes: the result is exactly
    /// what `spec_parse_fen` says of them.
    #[verifier::loop_isolation(false)]
    pub(crate) fn new_from_bytes(bytes: &[u8]) -> (r: Result<Board, FenParseError>)
        ensures
            r matches Ok(b) ==> {
                &&& b@.wf()
                &&& b@.has_kings()
                &&& popcount(b@.bbs[0]) == 1
                &&& popcount(b@.bbs[6]) == 1
                &&& b@.castling_rights < 16
                &&& !b@.in_check
                &&& b@.moves.len() == 0
            },
            r matches Ok(b) ==> (spec_parse_fen(bytes@) matches Ok(v) && b@ == v),
            r matches Err(e) ==> spec_parse_fen(bytes@) == Err::<BoardV, FenParseError>(e),
    {

        // board field: piece letters, digit runs of empty squares, and
        // rank separators, from square 0 (a8) upward
        let (p_start, p_end) = match nth_token(bytes, 0) {
            Some(se) => se,
            None => {
                return Err(FenParseError::InvalidPosition);
            },
        };
        let mut bitboards: Vec<u64> = Vec::new();
        while bitboards.len() < 12
            invariant
                bitboards@.len() <= 12,
                forall|j: int| 0 <= j < bitboards@.len() ==> bitboards@[j] == 0u64,
            decreases 12 - bitboards@.len(),
        {
            bitboards.push(0);
        }
        assert(bitboards@ =~= Seq::new(12, |i: int| 0u64));
        let ghost zeros = bitboards@;
        let mut index: u64 = 0;
        let mut k = p_start;
        while k < p_end
            invariant
                p_start <= k <= p_end <= bytes@.len(),
                index <= 73,
                bitboards@.len() == 12,
                spec_board_field(bytes@, p_start as int, p_end as int, zeros, 0)
                    == spec_board_field(bytes@, k as int, p_end as int, bitboards@, index),
                zeros == Seq::new(12, |i: int| 0u64),
            decreases p_end - k,
        {
            let c = bytes[k];
            match piece_char_index(c) {
                Some(i) => {
                    if index >= 64 {
                        return Err(FenParseError::InvalidPosition);
                    }
                    bitboards[i] = bitboards[i] | (1u64 << index);
                    index = index + 1;
                },
                None => {
                    if 48 <= c && c <= 57 {
                        if index <= 64 {
                            index = index + ((c - 48) as u64);
                        }
                    } else if c == 47 {
                        // rank separator
                    } else {
                        return Err(FenParseError::InvalidPosition);
                    }
                },
            }
            k = k + 1;
        }

        // make sure each side has exactly one king on the board
        if Bitboard::new(bitboards[0]).count_bits() != 1 || Bitboard::new(
            bitboards[6],
        ).count_bits() != 1 {
            return Err(FenParseError::InvalidPosition);
        }

        // side to move
        let (s_start, s_end) = match nth_token(bytes, 1) {
            Some(se) => se,
            None => {
                return Err(FenParseError::SideToMove);
            },
        };
        let to_move = if s_end - s_start == 1 && bytes[s_start] == 119 {
            Color::WHITE
        } else if s_end - s_start == 1 && bytes[s_start] == 98 {
            Color::BLACK
        } else {
            return Err(FenParseError::SideToMove);
        };

        // castling rights
        let (c_start, c_end) = match nth_token(bytes, 2) {
            Some(se) => se,
            None => {
                return Err(FenParseError::Castling);
            },
        };
        let mut has_wk = false;
        let mut has_wq = false;
        let mut has_bk = false;
        let mut has_bq = false;
        let mut k = c_start;
        while k < c_end
            invariant
                c_start <= k <= c_end <= bytes@.len(),
                castling_field_ok(bytes@, c_start as int, k as int),
                has_wk == has_byte(bytes@, c_start as int, k as int, 75),
                has_wq == has_byte(bytes@, c_start as int, k as int, 81),
                has_bk == has_byte(bytes@, c_start as int, k as int, 107),
                has_bq == has_byte(bytes@, c_start as int, k as int, 113),
            decreases c_end - k,
        {
            match bytes[k] {
                75 => {
                    has_wk = true;
                },
                81 => {
                    has_wq = true;
                },
                107 => {
                    has_bk = true;
                },
                113 => {
                    has_bq = true;
                },
                45 => {},
                _ => {
                    return Err(FenParseError::Castling);
                },
            }
            k = k + 1;
        }
        let mut castling_rights: u8 = 0;
        if !(c_end - c_start == 1 && bytes[c_start] == 45) {
            if has_wk {
                castling_rights = castling_rights + 8;
            }
            if has_wq {
                castling_rights = castling_rights + 4;
            }
            if has_bk {
                castling_rights = castling_rights + 2;
            }
            if has_bq {
                castling_rights = castling_rights + 1;
            }
        }

        // en-passant target
        let (e_start, e_end) = match nth_token(bytes, 3) {
            Some(se) => se,
            None => {
                return Err(FenParseError::EnPassant);
            },
        };
        let en_passant: Square;
        if e_end - e_start == 1 && bytes[e_start] == 45 {
            en_passant = Square::none();
        } else if e_end - e_start >= 2 {
            let file = bytes[e_start];
            let rank = bytes[e_start + 1];
            if 97 <= file && file <= 104 && 49 <= rank && rank <= 56 {
                en_passant = Square::new((7 - (rank - 49)) * 8 + (file - 97));
            } else {
                return Err(FenParseError::EnPassant);
            }
        } else {
            return Err(FenParseError::EnPassant);
        }

        // half-move clock: validated and discarded
        let (h_start, h_end) = match nth_token(bytes, 4) {
            Some(se) => se,
            None => {
                return Err(FenParseError::HalfMove);
            },
        };
        match parse_uint(bytes, h_start, h_end, 255) {
            Some(_) => {},
            None => {
                return Err(FenParseError::HalfMove);
            },
        }

        // move number: validated and discarded, but must not be zero
        let (m_start, m_end) = match nth_token(bytes, 5) {
            Some(se) => se,
            None => {
                return Err(FenParseError::Ply);
            },
        };
        match parse_uint(bytes, m_start, m_end, 0xFFFFFFFFFFFFFFFF) {
            Some(v) => {
                if v == 0 {
                    return Err(FenParseError::Ply);
                }
            },
            None => {
                return Err(FenParseError::Ply);
            },
        }

        Ok(
            Board {
                bitboards,
                to_move,
                castling_rights,
                en_passant,
                in_check: false,
                pseudo_moves: MoveList::empty(),
            },
        )
    }

    fn bb_set(&mut self, i: usize, sq: Square)
        requires
            old(self)@.wf(),
            i < 12,
            sq@ < 64,
        ensures
            final(self)@ == (BoardV { bbs: set_at(old(self)@.bbs, i as int, sq@ as u64), ..old(
                self,
            )@ }),
            final(self)@.wf(),
    {
        let mut b = Bitboard::new(self.bitboards[i]);
        b.set_bit_by_square(sq);
        self.bitboards[i] = b.to_int();
    }

    fn bb_pop(&mut self, i: usize, sq: Square)
        requires
            old(self)@.wf(),
            i < 12,
            sq@ < 64,
        ensures
            final(self)@ == (BoardV { bbs: pop_at(old(self)@.bbs, i as int, sq@ as u64), ..old(
                self,
            )@ }),
            final(self)@.wf(),
    {
        let mut b = Bitboard::new(self.bitboards[i]);
        b.pop_bit_by_square(sq);
        self.bitboards[i] = b.to_int();
    }

    fn bb_move(&mut self, i: usize, s: Square, t: Square)
        requires
            old(self)@.wf(),
            i < 12,
            s@ < 64,
            t@ < 64,
        ensures
            final(self)@ == (BoardV {
                bbs: move_bit_at(old(self)@.bbs, i as int, s@ as u64, t@ as u64),
                ..old(self)@
            }),
            final(self)@.wf(),
    {
        let mut b = Bitboard::new(self.bitboards[i]);
        b.move_bit_by_square(s, t);
        self.bitboards[i] = b.to_int();
        proof {
            if bit64(old(self)@.bbs[i as int], s@ as u64) && !bit64(
                old(self)@.bbs[i as int],
                t@ as u64,
            ) {
                assert(self@.bbs =~= move_bit_at(old(self)@.bbs, i as int, s@ as u64, t@ as u64));
            } else {
                assert(self@.bbs =~= old(self)@.bbs.update(i as int, old(self)@.bbs[i as int]));
                assert(self@.bbs =~= move_bit_at(old(self)@.bbs, i as int, s@ as u64, t@ as u64));
            }
        }
    }

    fn apply_special_effects(&mut self, mv: Move)
        requires
            old(self)@.wf(),
            mv.wf(),
        ensures
            ({
                let eff = spec_apply_special(
                    old(self)@.bbs,
                    rights_after_capture(
                        old(self)@.bbs,
                        move_target(mv@),
                        old(self)@.castling_rights,
                    ),
                    old(self)@.to_move,
                    move_origin(mv@) as u64,
                    move_target(mv@) as u64,
                    special_of_code(move_code(mv@)),
                );
                final(self)@ == (BoardV {
                    bbs: eff.0,
                    castling_rights: eff.1,
                    en_passant: eff.2,
                    ..old(self)@
                })
            }),
            final(self)@.wf(),
    {
        let ghost v0 = old(self)@;
        let origin = mv.get_origin();
        let target = mv.get_target();

        // a capture on a home rook square narrows castling rights
        match self.get_bitboard_index_at_square(target) {
            Some(i) => {
                if i == 2 {
                    if target.to_int() == 56 {
                        self.castling_rights = self.castling_rights & 11;
                    } else if target.to_int() == 63 {
                        self.castling_rights = self.castling_rights & 7;
                    }
                } else if i == 8 {
                    if target.to_int() == 0 {
                        self.castling_rights = self.castling_rights & 14;
                    } else if target.to_int() == 7 {
                        self.castling_rights = self.castling_rights & 13;
                    }
                }
            },
            None => {},
        }
        assert(self@.castling_rights == rights_after_capture(
            v0.bbs,
            move_target(mv@),
            v0.castling_rights,
        ));
        assert(self@.bbs == v0.bbs);

        // the special tag's own effects
        match mv.get_special() {
            SpecialMove::Quiet => {
                self.en_passant = Square::none();
            },
            SpecialMove::DoublePush => {
                match self.to_move {
                    Color::WHITE => {
                        match origin.due_n() {
                            Some(sq) => {
                                self.en_passant = sq;
                            },
                            None => {
                                self.en_passant = Square::none();
                            },
                        }
                    },
                    Color::BLACK => {
                        match origin.due_s() {
                            Some(sq) => {
                                self.en_passant = sq;
                            },
                            None => {
                                self.en_passant = Square::none();
                            },
                        }
                    },
                }
            },
            SpecialMove::KingsideCastle => {
                match self.to_move {
                    Color::WHITE => {
                        self.castling_rights = self.castling_rights & 3;
                        self.bb_move(2, Square::new(63), Square::new(61));
                    },
                    Color::BLACK => {
                        self.castling_rights = self.castling_rights & 12;
                        self.bb_move(8, Square::new(7), Square::new(5));
                    },
                }
                self.en_passant = Square::none();
            },
            SpecialMove::QueensideCastle => {
                match self.to_move {
                    Color::WHITE => {
                        self.castling_rights = self.castling_rights & 3;
                        self.bb_move(2, Square::new(56), Square::new(59));
                    },
                    Color::BLACK => {
                        self.castling_rights = self.castling_rights & 12;
                        self.bb_move(8, Square::new(0), Square::new(3));
                    },
                }
                self.en_passant = Square::none();
            },
            SpecialMove::Capture => {
                self.del_piece(target);
                self.en_passant = Square::none();
            },
            SpecialMove::EnPassant => {
                match self.to_move {
                    Color::WHITE => {
                        match target.due_s() {
                            Some(sq) => self.bb_pop(11, sq),
                            None => {},
                        }
                    },
                    Color::BLACK => {
                        match target.due_n() {
                            Some(sq) => self.bb_pop(5, sq),
                            None => {},
                        }
                    },
                }
                self.en_passant = Square::none();
            },
            SpecialMove::Promotion(piece) => {
                match self.to_move {
                    Color::WHITE => {
                        self.bb_pop(5, origin);
                    },
                    Color::BLACK => {
                        self.bb_pop(11, origin);
                    },
                }
                let base: usize = match self.to_move {
                    Color::WHITE => 0,
                    Color::BLACK => 6,
                };
                match piece {
                    Piece::Queen => self.bb_set(base + 1, target),
                    Piece::Rook => self.bb_set(base + 2, target),
                    Piece::Bishop => self.bb_set(base + 3, target),
                    Piece::Knight => self.bb_set(base + 4, target),
                    _ => {
                        assert(false);
                    },
                }
                self.en_passant = Square::none();
            },
            SpecialMove::PromotionCapture(piece) => {
                self.del_piece(target);
                self.del_piece(origin);
                let base: usize = match self.to_move {
                    Color::WHITE => 0,
                    Color::BLACK => 6,
                };
                match piece {
                    Piece::Queen => self.bb_set(base + 1, target),
                    Piece::Rook => self.bb_set(base + 2, target),
                    Piece::Bishop => self.bb_set(base + 3, target),
                    Piece::Knight => self.bb_set(base + 4, target),
                    _ => {
                        assert(false);
                    },
                }
                self.en_passant = Square::none();
            },
        }
    }

    fn relocate_mover(&mut self, mv: Move)
        requires
            old(self)@.wf(),
            mv.wf(),
        ensures
            ({
                let rel = spec_relocate(old(self)@.bbs, old(self)@.castling_rights, mv);
                final(self)@ == (BoardV { bbs: rel.0, castling_rights: rel.1, ..old(self)@ })
            }),
            final(self)@.wf(),
    {
        let origin = mv.get_origin();
        let target = mv.get_target();
        match mv.get_special() {
            SpecialMove::Promotion(_) => {},
            SpecialMove::PromotionCapture(_) => {},
            _ => {
                match self.get_bitboard_index_at_square(origin) {
                    Some(oi) => {
                        self.bb_move(oi, origin, target);
                        if oi == 2 {
                            if origin.to_int() == 56 {
                                self.castling_rights = self.castling_rights & 11;
                            } else if origin.to_int() == 63 {
                                self.castling_rights = self.castling_rights & 7;
                            }
                        } else if oi == 8 {
                            if origin.to_int() == 0 {
                                self.castling_rights = self.castling_rights & 14;
                            } else if origin.to_int() == 7 {
                                self.castling_rights = self.castling_rights & 13;
                            }
                        } else if oi == 0 {
                            self.castling_rights = self.castling_rights & 3;
                        } else if oi == 6 {
                            self.castling_rights = self.castling_rights & 12;
                        }
                    },
                    None => {},
                }
            },
        }
    }

    fn finish_move(&mut self, tables: &MoveTables) -> (r: bool)
        requires
            old(self)@.wf(),
            tables.wf(),
        ensures
            final(self)@ == spec_finish(
                old(self)@,
                old(self)@.bbs,
                old(self)@.castling_rights,
                old(self)@.en_passant,
            ).0,
            r == spec_finish(
                old(self)@,
                old(self)@.bbs,
                old(self)@.castling_rights,
                old(self)@.en_passant,
            ).1,
            final(self)@.wf(),
    {
        let (own_idx, opp_idx): (usize, usize) = match self.to_move {
            Color::WHITE => (0, 6),
            Color::BLACK => (6, 0),
        };
        match Bitboard::new(self.bitboards[opp_idx]).get_lsb_square() {
            None => {
                self.in_check = false;
                return false;
            },
            Some(ksq) => {
                let mover = self.to_move;
                let chk = self.is_attacked(tables, ksq, Some(mover));
                self.in_check = chk;
            },
        }
        match Bitboard::new(self.bitboards[own_idx]).get_lsb_square() {
            None => {
                return false;
            },
            Some(ksq) => {
                let opp = self.to_move.other();
                if self.is_attacked(tables, ksq, Some(opp)) {
                    return false;
                }
            },
        }
        self.to_move = self.to_move.other();
        true
    }

    /// Apply a move to the board in place and report whether it was
    /// legal: a move is rejected exactly when the position it produces
    /// has the mover's own king attacked (or a king gone). A rejected
    /// move leaves the board mutated; the caller restores its snapshot.
    pub fn make_move(&mut self, tables: &MoveTables, mv: Move) -> (r: bool)
        requires
            old(self)@.wf(),
            tables.wf(),
            mv.wf(),
        ensures
            final(self)@ == spec_make_move(old(self)@, mv).0,
            r == spec_legal(old(self)@, mv),
            final(self)@.wf(),
            r ==> final(self)@.has_kings(),
            r ==> final(self)@.to_move == opposite(old(self)@.to_move),
            !r ==> final(self)@.to_move == old(self)@.to_move,
    {
        let ghost v0 = old(self)@;
        self.apply_special_effects(mv);
        self.relocate_mover(mv);
        let r = self.finish_move(tables);
        proof {
            let s = special_of_code(move_code(mv@));
            let cr1 = rights_after_capture(v0.bbs, move_target(mv@), v0.castling_rights);
            let eff = spec_apply_special(
                v0.bbs,
                cr1,
                v0.to_move,
                move_origin(mv@) as u64,
                move_target(mv@) as u64,
                s,
            );
            let rel = spec_relocate(eff.0, eff.1, mv);
            assert(spec_make_move(v0, mv) == spec_finish(v0, rel.0, rel.1, eff.2));
        }
        r
    }

    /// Create a new board in the standard starting position.
    pub fn start() -> (r: Board)
        ensures
            r@ == startpos_board(),
            r@.wf(),
            r@.has_kings(),
    {
        let mut bitboards: Vec<u64> = Vec::new();
        bitboards.push(0x1000000000000000);
        bitboards.push(0x0800000000000000);
        bitboards.push(0x8100000000000000);
        bitboards.push(0x2400000000000000);
        bitboards.push(0x4200000000000000);
        bitboards.push(0x00FF000000000000);
        bitboards.push(0x10);
        bitboards.push(0x08);
        bitboards.push(0x81);
        bitboards.push(0x24);
        bitboards.push(0x42);
        bitboards.push(0xFF00);
        let r = Board {
            bitboards,
            to_move: Color::WHITE,
            castling_rights: 15,
            en_passant: Square::new(64),
            in_check: false,
            pseudo_moves: MoveList::empty(),
        };
        assert(r@.bbs =~= startpos_board().bbs);
        assert(r@.moves =~= startpos_board().moves);
        assert(r@ =~= startpos_board());
        r
    }
}

} // verus!
