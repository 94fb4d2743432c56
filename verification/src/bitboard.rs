//! A 64-bit set of board squares: bit `i` of the underlying integer says
//! whether square `i` is in the set.

use vstd::prelude::*;
use crate::square::Square;

verus! {

/// True when bit `i` of `b` is set. Only meaningful for `i < 64`.
pub open spec fn bit64(b: u64, i: u64) -> bool
    recommends
        i < 64,
{
    b & (1u64 << i) != 0
}

/// The number of set bits of `b`, counted from the low end.
pub open spec fn popcount(b: u64) -> nat
    decreases b,
{
    if b == 0 {
        0
    } else {
        (b % 2) as nat + popcount(b / 2)
    }
}

/// The index of the lowest set bit of `b`, or 64 when `b` is empty.
pub open spec fn lsb_index(b: u64) -> nat
    decreases b,
{
    if b == 0 {
        64
    } else if b % 2 == 1 {
        0
    } else {
        1 + lsb_index(b / 2)
    }
}

/// The squares of a bitset, in ascending index order: what repeated
/// extract-then-clear walks over a working copy.
pub open spec fn squares_of(bb: u64) -> Seq<u8>
    decreases bb,
    via squares_of_decreases
{
    if bb == 0 {
        Seq::empty()
    } else {
        seq![lsb_index(bb) as u8] + squares_of(bb & !(1u64 << (lsb_index(bb) as u64)))
    }
}

#[via_fn]
proof fn squares_of_decreases(bb: u64) {
    if bb != 0 {
        lemma_lsb_props(bb);
        lemma_clear_bit_decreases(bb, lsb_index(bb) as u64);
    }
}

/// The square list has one entry per set bit.
pub proof fn lemma_squares_of_len(bb: u64)
    ensures
        squares_of(bb).len() == popcount(bb),
    decreases bb,
{
    if bb != 0 {
        lemma_lsb_props(bb);
        lemma_pop_lsb(bb);
        lemma_clear_bit_decreases(bb, lsb_index(bb) as u64);
        lemma_squares_of_len(bb & !(1u64 << (lsb_index(bb) as u64)));
    }
}

/// Every listed square is on the board.
pub proof fn lemma_squares_of_bounds(bb: u64)
    ensures
        forall|i: int| 0 <= i < squares_of(bb).len() ==> (#[trigger] squares_of(bb)[i]) < 64,
    decreases bb,
{
    if bb != 0 {
        lemma_lsb_props(bb);
        lemma_clear_bit_decreases(bb, lsb_index(bb) as u64);
        let rest = bb & !(1u64 << (lsb_index(bb) as u64));
        lemma_squares_of_bounds(rest);
        assert forall|i: int| 0 <= i < squares_of(bb).len() implies (#[trigger] squares_of(bb)[i])
            < 64 by {
            if i > 0 {
                assert(squares_of(bb)[i] == squares_of(rest)[i - 1]);
            }
        }
    }
}

/// Set bits of a union, intersection, symmetric difference and complement,
/// bit by bit.
pub proof fn lemma_bit64_ops()
    by (bit_vector)
    ensures
        forall|a: u64, b: u64, i: u64|
            i < 64 ==> #[trigger] bit64(a | b, i) == (bit64(a, i) || bit64(b, i)),
        forall|a: u64, b: u64, i: u64|
            i < 64 ==> #[trigger] bit64(a & b, i) == (bit64(a, i) && bit64(b, i)),
        forall|a: u64, b: u64, i: u64|
            i < 64 ==> #[trigger] bit64(a ^ b, i) == (bit64(a, i) != bit64(b, i)),
        forall|a: u64, i: u64| i < 64 ==> #[trigger] bit64(!a, i) == !bit64(a, i),
        forall|i: u64| i < 64 ==> #[trigger] bit64(0u64, i) == false,
        forall|i: u64, j: u64|
            i < 64 && j < 64 ==> #[trigger] bit64(1u64 << i, j) == (i == j),
{
}

/// Union of 64-bit sets is commutative and associative, with the empty
/// set as its identity.
pub proof fn lemma_or64()
    by (bit_vector)
    ensures
        forall|a: u64| #[trigger] (0u64 | a) == a,
        forall|a: u64| #[trigger] (a | 0u64) == a,
        forall|a: u64, b: u64| #[trigger] (a | b) == b | a,
        forall|a: u64, b: u64, c: u64| #[trigger] ((a | b) | c) == a | (b | c),
{
}

/// Two 64-bit values with the same set bits are the same value.
pub proof fn lemma_bit64_ext(a: u64, b: u64)
    requires
        forall|i: u64| i < 64 ==> bit64(a, i) == bit64(b, i),
    ensures
        a == b,
{
    if a != b {
        let d = a ^ b;
        assert(d != 0) by (bit_vector)
            requires
                a != b && d == a ^ b,
        ;
        lemma_lsb_props(d);
        lemma_bit64_ops();
        let k = lsb_index(d) as u64;
        assert(bit64(a, k) == bit64(b, k));
        assert(false);
    }
}

proof fn lemma_popcount_bound_rec(b: u64, k: nat)
    requires
        b < vstd::arithmetic::power2::pow2(k),
    ensures
        popcount(b) <= k,
    decreases k,
{
    if b == 0 {
    } else {
        if k == 0 {
            vstd::arithmetic::power2::lemma2_to64();
        } else {
            vstd::arithmetic::power2::lemma_pow2_unfold(k);
            assert(b / 2 < vstd::arithmetic::power2::pow2((k - 1) as nat));
            lemma_popcount_bound_rec(b / 2, (k - 1) as nat);
        }
    }
}

/// A 64-bit value has at most 64 set bits.
pub proof fn lemma_popcount_bound(b: u64)
    ensures
        popcount(b) <= 64,
{
    vstd::arithmetic::power2::lemma2_to64();
    vstd::arithmetic::power2::lemma2_to64_rest();
    lemma_popcount_bound_rec(b, 64);
}

/// Clearing the lowest set bit lowers the population count by one.
pub proof fn lemma_popcount_step(b: u64)
    requires
        b != 0,
    ensures
        popcount(b & (b - 1) as u64) + 1 == popcount(b),
    decreases b,
{
    if b % 2 == 1 {
        assert(b & (b - 1) as u64 == (b - 1) as u64) by (bit_vector)
            requires
                b % 2 == 1,
        ;
        if b == 1 {
        } else {
            assert((b - 1) as u64 % 2 == 0);
            assert((b - 1) as u64 / 2 == b / 2);
        }
    } else {
        let h = b / 2;
        assert(h != 0 && h < b);
        assert(b & (b - 1) as u64 == 2 * ((b / 2) & (b / 2 - 1) as u64)) by (bit_vector)
            requires
                b % 2 == 0 && b != 0,
        ;
        lemma_popcount_step(h);
        let c = h & (h - 1) as u64;
        let d = (2 * c) as u64;
        assert(d == 2 * c);
        assert(d / 2 == c);
        assert(d % 2 == 0);
        assert(popcount(d) == popcount(c));
    }
}

/// The lowest set bit of a non-empty value: it is set, everything below
/// it is clear, and its index is below 64.
pub proof fn lemma_lsb_props(b: u64)
    requires
        b != 0,
    ensures
        lsb_index(b) < 64,
        bit64(b, lsb_index(b) as u64),
        forall|j: u64| j < lsb_index(b) ==> !bit64(b, j),
    decreases b,
{
    lemma_bit64_ops();
    if b % 2 == 1 {
        assert(bit64(b, 0)) by (bit_vector)
            requires
                b % 2 == 1,
        ;
    } else {
        let h = b / 2;
        lemma_lsb_props(h);
        let k = lsb_index(h) as u64;
        assert(bit64(h, k) ==> bit64(b, (k + 1) as u64)) by (bit_vector)
            requires
                b % 2 == 0 && h == b / 2 && k < 64,
        ;
        assert(forall|j: u64|
            j < 64 && 1 <= j && !bit64(h, (j - 1) as u64) ==> !#[trigger] bit64(b, j)) by (bit_vector)
            requires
                b % 2 == 0 && h == b / 2,
        ;
        assert(!bit64(b, 0)) by (bit_vector)
            requires
                b % 2 == 0,
        ;
        if k == 63 {
            // the lowest set bit of b would be bit 64, impossible for b != 0
            assert(!(b % 2 == 0 && b != 0 && bit64(b / 2, 63))) by (bit_vector);
        }
        assert(forall|j: u64| j < lsb_index(b) ==> !bit64(b, j)) by {
            assert forall|j: u64| j < lsb_index(b) implies !bit64(b, j) by {
                if j >= 1 {
                    assert(!bit64(h, (j - 1) as u64));
                }
            }
        }
    }
}

/// Two's-complement negation intersected with the value isolates the
/// lowest set bit.
pub proof fn lemma_lsb_isolate(b: u64)
    requires
        b != 0,
    ensures
        !b < u64::MAX,
        ((!b + 1) as u64) & b == 1u64 << (lsb_index(b) as u64),
    decreases b,
{
    assert(!b < u64::MAX) by (bit_vector)
        requires
            b != 0,
    ;
    lemma_lsb_props(b);
    if b % 2 == 1 {
        assert(((!b + 1) as u64) & b == 1u64 << 0u64) by (bit_vector)
            requires
                b % 2 == 1,
        ;
    } else {
        let h = b / 2;
        lemma_lsb_isolate(h);
        let k = lsb_index(h) as u64;
        lemma_lsb_props(h);
        assert(((!h + 1) as u64) & h == 1u64 << k ==> ((!b + 1) as u64) & b == 2 * (1u64 << k))
            by (bit_vector)
            requires
                b % 2 == 0 && b != 0 && h == b / 2 && k < 64,
        ;
        assert(2 * (1u64 << k) == 1u64 << (k + 1) as u64) by (bit_vector)
            requires
                k < 63,
        ;
    }
}

/// A block of `k` low ones has population count `k`.
pub proof fn lemma_popcount_low_ones(k: u64)
    requires
        k < 64,
    ensures
        popcount(((1u64 << k) - 1) as u64) == k,
    decreases k,
{
    if k == 0 {
        assert(1u64 << 0u64 == 1) by (bit_vector);
    } else {
        lemma_popcount_low_ones((k - 1) as u64);
        assert(1u64 << k >= 1 && 1u64 << (k - 1) as u64 >= 1) by (bit_vector)
            requires
                1 <= k < 64,
        ;
        let m = ((1u64 << k) - 1) as u64;
        let p = ((1u64 << (k - 1) as u64) - 1) as u64;
        assert(m % 2 == 1 && m / 2 == p) by (bit_vector)
            requires
                1 <= k < 64 && m == ((1u64 << k) - 1) as u64 && p == ((1u64 << (k - 1) as u64)
                    - 1) as u64,
        ;
    }
}

/// Clearing the lowest set bit of a non-empty value is the same as
/// intersecting it with its predecessor, and lowers the population count
/// by one.
pub proof fn lemma_pop_lsb(b: u64)
    requires
        b != 0,
    ensures
        b & !(1u64 << (lsb_index(b) as u64)) == (b & (b - 1) as u64),
        popcount(b & !(1u64 << (lsb_index(b) as u64))) + 1 == popcount(b),
{
    lemma_lsb_props(b);
    lemma_lsb_isolate(b);
    let k = lsb_index(b) as u64;
    assert((((!b + 1) as u64) & b == 1u64 << k) ==> (b & !(1u64 << k)) == (b & (b - 1) as u64))
        by (bit_vector)
        requires
            b != 0 && k < 64,
    ;
    lemma_popcount_step(b);
}

/// Clearing a set bit strictly lowers the value.
pub proof fn lemma_clear_bit_decreases(b: u64, i: u64)
    requires
        i < 64,
        bit64(b, i),
    ensures
        (b & !(1u64 << i)) < b,
{
    assert(i < 64 && b & (1u64 << i) != 0 ==> (b & !(1u64 << i)) < b) by (bit_vector);
}

/// A set of board squares, packed one per bit of a 64-bit integer.
#[derive(Clone, Copy, Debug, PartialEq, Eq, Structural)]
pub struct Bitboard(u64);

impl View for Bitboard {
    type V = u64;

    closed spec fn view(&self) -> u64 {
        self.0
    }
}

impl Bitboard {
    /// Create a new Bitboard from its integer representation.
    pub fn new(value: u64) -> (r: Bitboard)
        ensures
            r@ == value,
    {
        Bitboard(value)
    }

    /// Create a new empty Bitboard.
    pub fn empty() -> (r: Bitboard)
        ensures
            r@ == 0,
    {
        Bitboard(0)
    }

    /// Create a Bitboard with only the bit at the given square set.
    pub fn from_square(square: Square) -> (r: Bitboard)
        requires
            square@ < 64,
        ensures
            r@ == 1u64 << square@,
    {
        Bitboard(1u64 << square.to_int())
    }

    /// Get the integer representation.
    pub fn to_int(&self) -> (r: u64)
        ensures
            r == self@,
    {
        self.0
    }

    /// Whether no square is in the set.
    pub fn is_empty(&self) -> (r: bool)
        ensures
            r == (self@ == 0),
    {
        self.0 == 0
    }

    /// Get the bit at an index: 1 when set, 0 when clear.
    pub fn get_bit(&self, index: u8) -> (r: u8)
        requires
            index < 64,
        ensures
            r == if bit64(self@, index as u64) { 1u8 } else { 0u8 },
    {
        match self.0 & (1u64 << index) {
            0 => 0,
            _ => 1,
        }
    }

    /// Get the bit at a square: 1 when set, 0 when clear.
    pub fn get_bit_by_square(&self, square: Square) -> (r: u8)
        requires
            square@ < 64,
        ensures
            r == if bit64(self@, square@ as u64) { 1u8 } else { 0u8 },
    {
        self.get_bit(square.to_int())
    }

    /// Set the bit at an index to 1.
    pub fn set_bit(&mut self, index: u8)
        requires
            index < 64,
        ensures
            final(self)@ == old(self)@ | (1u64 << index),
    {
        self.0 = self.0 | (1u64 << index);
    }

    /// Set the bit at a square to 1.
    pub fn set_bit_by_square(&mut self, square: Square)
        requires
            square@ < 64,
        ensures
            final(self)@ == old(self)@ | (1u64 << square@),
    {
        self.set_bit(square.to_int());
    }

    /// Set the bit at an index to 0.
    pub fn pop_bit(&mut self, index: u8)
        requires
            index < 64,
        ensures
            final(self)@ == old(self)@ & !(1u64 << index),
    {
        let ghost b = self.0;
        if self.get_bit(index) == 1 {
            self.0 = self.0 ^ (1u64 << index);
            assert(b & (1u64 << index) != 0 ==> b ^ (1u64 << index) == b & !(1u64 << index))
                by (bit_vector);
        } else {
            assert(b & (1u64 << index) == 0 ==> b == b & !(1u64 << index)) by (bit_vector);
        }
    }

    /// Set the bit at a square to 0.
    pub fn pop_bit_by_square(&mut self, square: Square)
        requires
            square@ < 64,
        ensures
            final(self)@ == old(self)@ & !(1u64 << square@),
    {
        self.pop_bit(square.to_int());
    }

    /// If the bit indexed by source is set and the bit indexed by target is
    /// not, move the set bit from source to target; otherwise do nothing.
    pub fn move_bit(&mut self, source: u8, target: u8)
        requires
            source < 64,
            target < 64,
        ensures
            bit64(old(self)@, source as u64) && !bit64(old(self)@, target as u64)
                ==> final(self)@ == (old(self)@ & !(1u64 << source)) | (1u64 << target),
            !(bit64(old(self)@, source as u64) && !bit64(old(self)@, target as u64))
                ==> final(self)@ == old(self)@,
    {
        if self.get_bit(source) == 1 && self.get_bit(target) == 0 {
            self.pop_bit(source);
            self.set_bit(target);
        }
    }

    /// If the bit at the source square is set and the bit at the target
    /// square is not, move the set bit from source to target.
    pub fn move_bit_by_square(&mut self, source: Square, target: Square)
        requires
            source@ < 64,
            target@ < 64,
        ensures
            bit64(old(self)@, source@ as u64) && !bit64(old(self)@, target@ as u64)
                ==> final(self)@ == (old(self)@ & !(1u64 << source@)) | (1u64 << target@),
            !(bit64(old(self)@, source@ as u64) && !bit64(old(self)@, target@ as u64))
                ==> final(self)@ == old(self)@,
    {
        self.move_bit(source.to_int(), target.to_int());
    }

    /// Count the number of set bits.
    pub fn count_bits(&self) -> (r: u8)
        ensures
            r == popcount(self@),
            r <= 64,
    {
        proof {
            lemma_popcount_bound(self@);
        }
        let mut count: u8 = 0;
        let mut bb: u64 = self.0;
        while bb != 0
            invariant
                count + popcount(bb) == popcount(self@),
                popcount(self@) <= 64,
            decreases bb,
        {
            proof {
                lemma_popcount_step(bb);
                assert((bb & (bb - 1) as u64) < bb) by (bit_vector)
                    requires
                        bb != 0,
                ;
            }
            bb = bb & (bb - 1);
            count = count + 1;
        }
        count
    }

    /// Get the index of the least significant set bit, or `None` when the
    /// set is empty. The lowest set bit is isolated by intersecting the
    /// value with its two's-complement negation, and its index is the
    /// population count of the ones below it.
    pub fn get_lsb_index(&self) -> (r: Option<u8>)
        ensures
            self@ != 0 ==> (r matches Some(i) && i == lsb_index(self@) && i < 64),
            self@ == 0 ==> r is None,
    {
        if self.0 != 0 {
            proof {
                lemma_lsb_props(self@);
                lemma_lsb_isolate(self@);
                lemma_popcount_low_ones(lsb_index(self@) as u64);
            }
            let ghost k = lsb_index(self@) as u64;
            let isolated = (!self.0 + 1) & self.0;
            assert(isolated >= 1) by {
                assert(k < 64 ==> 1u64 << k >= 1) by (bit_vector);
            }
            Some(Bitboard(isolated - 1).count_bits())
        } else {
            None
        }
    }

    /// Get the square of the least significant set bit, or `None` when the
    /// set is empty.
    pub fn get_lsb_square(&self) -> (r: Option<Square>)
        ensures
            self@ != 0 ==> (r matches Some(sq) && sq@ == lsb_index(self@) && sq@ < 64),
            self@ == 0 ==> r is None,
    {
        match self.get_lsb_index() {
            Some(index) => Some(Square::new(index)),
            None => None,
        }
    }
}

} // verus!
