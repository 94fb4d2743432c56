//! Compact move values: origin square in the low 6 bits, target square in
//! the next 6, and a 4-bit special-move tag in the top 4.

use vstd::prelude::*;
use crate::piece::Piece;
use crate::square::Square;

verus! {

/// What kind of move a move value records, beyond its two squares.
#[derive(Clone, Copy, Debug, PartialEq, Eq, Structural)]
pub enum SpecialMove {
    Quiet,
    DoublePush,
    KingsideCastle,
    QueensideCastle,
    Capture,
    EnPassant,
    Promotion(Piece),
    PromotionCapture(Piece),
}

/// Whether a piece kind may be promoted to.
pub open spec fn promotable(p: Piece) -> bool {
    p == Piece::Knight || p == Piece::Bishop || p == Piece::Rook || p == Piece::Queen
}

/// Whether a special-move value can be encoded: promotions must carry a
/// promotable piece kind.
pub open spec fn special_ok(s: SpecialMove) -> bool {
    match s {
        SpecialMove::Promotion(p) => promotable(p),
        SpecialMove::PromotionCapture(p) => promotable(p),
        _ => true,
    }
}

/// The 4-bit tag a special-move value encodes to.
pub open spec fn special_code(s: SpecialMove) -> u16 {
    match s {
        SpecialMove::Quiet => 0,
        SpecialMove::DoublePush => 1,
        SpecialMove::KingsideCastle => 2,
        SpecialMove::QueensideCastle => 3,
        SpecialMove::Capture => 4,
        SpecialMove::EnPassant => 5,
        SpecialMove::Promotion(p) => match p {
            Piece::Knight => 8,
            Piece::Bishop => 9,
            Piece::Rook => 10,
            Piece::Queen => 11,
            _ => 16,
        },
        SpecialMove::PromotionCapture(p) => match p {
            Piece::Knight => 12,
            Piece::Bishop => 13,
            Piece::Rook => 14,
            Piece::Queen => 15,
            _ => 16,
        },
    }
}

/// The 4-bit tags that decode to a special move: 6 and 7 are unused.
pub open spec fn code_valid(c: u16) -> bool {
    c <= 5 || (8 <= c && c <= 15)
}

/// The special move a valid 4-bit tag decodes to.
pub open spec fn special_of_code(c: u16) -> SpecialMove {
    if c == 0 {
        SpecialMove::Quiet
    } else if c == 1 {
        SpecialMove::DoublePush
    } else if c == 2 {
        SpecialMove::KingsideCastle
    } else if c == 3 {
        SpecialMove::QueensideCastle
    } else if c == 4 {
        SpecialMove::Capture
    } else if c == 5 {
        SpecialMove::EnPassant
    } else if c == 8 {
        SpecialMove::Promotion(Piece::Knight)
    } else if c == 9 {
        SpecialMove::Promotion(Piece::Bishop)
    } else if c == 10 {
        SpecialMove::Promotion(Piece::Rook)
    } else if c == 11 {
        SpecialMove::Promotion(Piece::Queen)
    } else if c == 12 {
        SpecialMove::PromotionCapture(Piece::Knight)
    } else if c == 13 {
        SpecialMove::PromotionCapture(Piece::Bishop)
    } else if c == 14 {
        SpecialMove::PromotionCapture(Piece::Rook)
    } else {
        SpecialMove::PromotionCapture(Piece::Queen)
    }
}

/// The packed move value a triple encodes to.
pub open spec fn encode_move(origin: u8, target: u8, s: SpecialMove) -> u16 {
    (origin as u16) | ((target as u16) << 6) | (special_code(s) << 12)
}

/// The origin square index a packed move decodes to.
pub open spec fn move_origin(m: u16) -> u8 {
    (m & 0x3f) as u8
}

/// The target square index a packed move decodes to.
pub open spec fn move_target(m: u16) -> u8 {
    ((m >> 6) & 0x3f) as u8
}

/// The 4-bit tag a packed move decodes to.
pub open spec fn move_code(m: u16) -> u16 {
    m >> 12
}

/// Move encoding round-trips: decoding an encoded move reproduces the
/// origin, the target and the special-move tag exactly.
pub proof fn lemma_move_roundtrip(origin: u8, target: u8, s: SpecialMove)
    requires
        origin < 64,
        target < 64,
        special_ok(s),
    ensures
        move_origin(encode_move(origin, target, s)) == origin,
        move_target(encode_move(origin, target, s)) == target,
        move_code(encode_move(origin, target, s)) == special_code(s),
        code_valid(special_code(s)),
        special_of_code(special_code(s)) == s,
{
    let c = special_code(s);
    assert(c <= 15);
    let m = (origin as u16) | ((target as u16) << 6) | (c << 12);
    assert((m & 0x3f) as u8 == origin && ((m >> 6) & 0x3f) as u8 == target && m >> 12 == c)
        by (bit_vector)
        requires
            origin < 64 && target < 64 && c <= 15 && m == (origin as u16) | ((target as u16) << 6)
                | (c << 12),
    ;
}

/// A move packed into 16 bits.
#[derive(Clone, Copy, Debug, PartialEq, Eq, Structural)]
pub struct Move(u16);

impl View for Move {
    type V = u16;

    closed spec fn view(&self) -> u16 {
        self.0
    }
}

/// The move value a triple encodes to, as a `Move`: what `Move::new`
/// returns.
pub closed spec fn spec_move(origin: u8, target: u8, s: SpecialMove) -> Move {
    Move(encode_move(origin, target, s))
}

/// What a spec-built move decodes to.
pub proof fn lemma_spec_move(origin: u8, target: u8, s: SpecialMove)
    ensures
        (#[trigger] spec_move(origin, target, s))@ == encode_move(origin, target, s),
{
}

impl Move {
    /// Whether the move value is a possible encoding: its tag decodes.
    pub open spec fn wf(self) -> bool {
        code_valid(move_code(self@))
    }

    /// Pack a move from its origin, its target and its special tag.
    pub fn new(origin: Square, target: Square, special_type: SpecialMove) -> (r: Move)
        requires
            origin@ < 64,
            target@ < 64,
            special_ok(special_type),
        ensures
            r@ == encode_move(origin@, target@, special_type),
            r == spec_move(origin@, target@, special_type),
            r.wf(),
            move_origin(r@) == origin@,
            move_target(r@) == target@,
            special_of_code(move_code(r@)) == special_type,
    {
        proof {
            lemma_move_roundtrip(origin@, target@, special_type);
        }
        let mv = (origin.to_int() as u16) | ((target.to_int() as u16) << 6);

        let special: u16 = match special_type {
            SpecialMove::Quiet => 0,
            SpecialMove::DoublePush => 1,
            SpecialMove::KingsideCastle => 2,
            SpecialMove::QueensideCastle => 3,
            SpecialMove::Capture => 4,
            SpecialMove::EnPassant => 5,
            SpecialMove::Promotion(piece) => match piece {
                Piece::Knight => 8,
                Piece::Bishop => 9,
                Piece::Rook => 10,
                Piece::Queen => 11,
                _ => 8,
            },
            SpecialMove::PromotionCapture(piece) => match piece {
                Piece::Knight => 12,
                Piece::Bishop => 13,
                Piece::Rook => 14,
                Piece::Queen => 15,
                _ => 12,
            },
        };
        assert(special == special_code(special_type));
        Move(mv | (special << 12))
    }

    /// The null move: the all-zero encoding, returned by a search that
    /// found no legal move.
    pub fn none() -> (r: Move)
        ensures
            r@ == 0,
            r == spec_move(0, 0, SpecialMove::Quiet),
            r.wf(),
    {
        proof {
            assert(0u16 >> 12 == 0 && (0u16 | ((0u16) << 6)) | (0u16 << 12) == 0) by (bit_vector);
        }
        Move(0)
    }

    /// Get the move's origin square.
    pub fn get_origin(&self) -> (r: Square)
        ensures
            r@ == move_origin(self@),
            r@ < 64,
    {
        proof {
            let m = self@;
            assert((m & 0x3f) < 64) by (bit_vector);
        }
        Square::new((self.0 & 0x3f) as u8)
    }

    /// Get the move's target square.
    pub fn get_target(&self) -> (r: Square)
        ensures
            r@ == move_target(self@),
            r@ < 64,
    {
        proof {
            let m = self@;
            assert((m & (0x3fu16 << 6)) >> 6 == (m >> 6) & 0x3f && ((m >> 6) & 0x3f) < 64)
                by (bit_vector);
        }
        Square::new(((self.0 & (0x3f << 6)) >> 6) as u8)
    }

    /// Get the move's special tag.
    pub fn get_special(&self) -> (r: SpecialMove)
        requires
            self.wf(),
        ensures
            r == special_of_code(move_code(self@)),
    {
        proof {
            let m = self@;
            assert((m & (0xfu16 << 12)) >> 12 == m >> 12 && m >> 12 <= 15) by (bit_vector);
        }
        match (self.0 & (0xf << 12)) >> 12 {
            0 => SpecialMove::Quiet,
            1 => SpecialMove::DoublePush,
            2 => SpecialMove::KingsideCastle,
            3 => SpecialMove::QueensideCastle,
            4 => SpecialMove::Capture,
            5 => SpecialMove::EnPassant,
            8 => SpecialMove::Promotion(Piece::Knight),
            9 => SpecialMove::Promotion(Piece::Bishop),
            10 => SpecialMove::Promotion(Piece::Rook),
            11 => SpecialMove::Promotion(Piece::Queen),
            12 => SpecialMove::PromotionCapture(Piece::Knight),
            13 => SpecialMove::PromotionCapture(Piece::Bishop),
            14 => SpecialMove::PromotionCapture(Piece::Rook),
            _ => SpecialMove::PromotionCapture(Piece::Queen),
        }
    }
}

/// An ordered collection of moves, in generation order.
#[derive(Debug)]
pub struct MoveList(Vec<Move>);

impl View for MoveList {
    type V = Seq<Move>;

    closed spec fn view(&self) -> Seq<Move> {
        self.0@
    }
}

impl MoveList {
    /// Create an empty move list.
    pub fn empty() -> (r: MoveList)
        ensures
            r@ == Seq::<Move>::empty(),
    {
        MoveList(Vec::new())
    }

    /// Push a new move onto the end of the list.
    pub fn add(&mut self, mv: Move)
        ensures
            final(self)@ == old(self)@.push(mv),
    {
        self.0.push(mv);
    }

    /// Get the last move and remove it from the list.
    pub fn take(&mut self) -> (r: Option<Move>)
        ensures
            old(self)@.len() == 0 ==> (r is None && final(self)@ == old(self)@),
            old(self)@.len() > 0 ==> (r == Some(old(self)@.last()) && final(self)@ == old(
                self,
            )@.drop_last()),
    {
        self.0.pop()
    }

    /// Get the last move without changing the list.
    pub fn peek(&self) -> (r: Option<Move>)
        ensures
            self@.len() == 0 ==> r is None,
            self@.len() > 0 ==> r == Some(self@.last()),
    {
        if self.0.is_empty() {
            None
        } else {
            Some(self.0[self.0.len() - 1])
        }
    }

    /// Get the number of moves in the list.
    pub fn len(&self) -> (r: usize)
        ensures
            r == self@.len(),
    {
        self.0.len()
    }

    /// Copy the moves out as a plain vector, in order.
    pub fn into_vec(&self) -> (r: Vec<Move>)
        ensures
            r@ == self@,
    {
        let mut out: Vec<Move> = Vec::new();
        let mut i: usize = 0;
        while i < self.0.len()
            invariant
                i <= self.0@.len(),
                out@.len() == i,
                forall|j: int| 0 <= j < i ==> out@[j] == self.0@[j],
            decreases self.0@.len() - i,
        {
            out.push(self.0[i]);
            i = i + 1;
        }
        assert(out@ =~= self@);
        out
    }
}

} // verus!
