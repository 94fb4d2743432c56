//! Board squares, indexed 0..63 from the top-left of the printed board
//! (file a, rank 8), left to right and then top to bottom.

use vstd::prelude::*;
use vstd::string::StringSliceAdditionalSpecFns;

verus! {

/// A board square. Index 0 is a8, 7 is h8, 56 is a1, 63 is h1;
/// index 64 stands for "no square" (the cleared en-passant target).
#[derive(Clone, Copy, Debug, PartialEq, Eq, Structural)]
pub struct Square(u8);

/// The "no square" sentinel index.
pub const NO_SQUARE_INDEX: u8 = 64;

impl View for Square {
    type V = u8;

    closed spec fn view(&self) -> u8 {
        self.0
    }
}

impl Square {
    /// Creates a new square at the given board index.
    pub fn new(index: u8) -> (r: Square)
        ensures
            r@ == index,
    {
        Square(index)
    }

    /// The "no square" value used where an en-passant target is absent.
    pub fn none() -> (r: Square)
        ensures
            r@ == NO_SQUARE_INDEX,
    {
        Square(NO_SQUARE_INDEX)
    }

    /// Create a square from algebraic notation: a file letter `a`..`h`
    /// followed by a rank digit `1`..`8`. Extra trailing characters are
    /// ignored, as is everything after the first two bytes.
    pub fn from_alg(coord: &str) -> (r: Option<Square>)
        ensures
            r matches Some(sq) ==> {
                &&& coord.spec_bytes().len() >= 2
                &&& 97 <= coord.spec_bytes()[0] <= 104
                &&& 49 <= coord.spec_bytes()[1] <= 56
                &&& sq@ == (7 - (coord.spec_bytes()[1] - 49)) * 8 + (coord.spec_bytes()[0] - 97)
            },
            r is None ==> (coord.spec_bytes().len() < 2 || !(97 <= coord.spec_bytes()[0] <= 104)
                || !(49 <= coord.spec_bytes()[1] <= 56)),
    {
        let bytes = coord.as_bytes();
        if bytes.len() < 2 {
            return None;
        }
        let file = bytes[0];
        let rank = bytes[1];
        if 97 <= file && file <= 104 {
            if 49 <= rank && rank <= 56 {
                return Some(Square::new((7 - (rank - 49)) * 8 + (file - 97)));
            }
        }
        None
    }

    /// Gets the square index as usize.
    pub fn to_index(&self) -> (r: usize)
        ensures
            r == self@,
    {
        self.0 as usize
    }

    /// Gets the square index as u8.
    pub fn to_int(&self) -> (r: u8)
        ensures
            r == self@,
    {
        self.0
    }

    /// Gets the square file, 0 for file a up to 7 for file h.
    pub fn file(&self) -> (r: u8)
        ensures
            r == self@ % 8,
    {
        self.0 % 8
    }

    /// Gets the square rank, 8 for the top row down to 1 for the bottom row.
    pub fn rank(&self) -> (r: u8)
        requires
            self@ < 64,
        ensures
            r == 8 - self@ / 8,
    {
        8 - (self.0 / 8)
    }

    /// The square one rank above, or `None` on the top edge.
    pub fn due_n(&self) -> (r: Option<Square>)
        requires
            self@ < 64,
        ensures
            self@ >= 8 ==> (r matches Some(sq) && sq@ == self@ - 8),
            self@ < 8 ==> r is None,
    {
        if self.rank() == 8 {
            return None;
        }
        Some(Square::new(self.0 - 8))
    }

    /// The square one rank below, or `None` on the bottom edge.
    pub fn due_s(&self) -> (r: Option<Square>)
        requires
            self@ < 64,
        ensures
            self@ < 56 ==> (r matches Some(sq) && sq@ == self@ + 8),
            self@ >= 56 ==> r is None,
    {
        if self.rank() == 1 {
            return None;
        }
        Some(Square::new(self.0 + 8))
    }

    /// The square one file to the left, or `None` on the a-file edge.
    pub fn due_w(&self) -> (r: Option<Square>)
        requires
            self@ < 64,
        ensures
            self@ % 8 != 0 ==> (r matches Some(sq) && sq@ == self@ - 1),
            self@ % 8 == 0 ==> r is None,
    {
        if self.file() == 0 {
            return None;
        }
        Some(Square::new(self.0 - 1))
    }

    /// The square one file to the right, or `None` on the h-file edge.
    pub fn due_e(&self) -> (r: Option<Square>)
        requires
            self@ < 64,
        ensures
            self@ % 8 != 7 ==> (r matches Some(sq) && sq@ == self@ + 1),
            self@ % 8 == 7 ==> r is None,
    {
        if self.file() == 7 {
            return None;
        }
        Some(Square::new(self.0 + 1))
    }

    /// The square diagonally up and left, or `None` on those edges.
    pub fn due_nw(&self) -> (r: Option<Square>)
        requires
            self@ < 64,
        ensures
            self@ % 8 != 0 && self@ >= 8 ==> (r matches Some(sq) && sq@ == self@ - 9),
            self@ % 8 == 0 || self@ < 8 ==> r is None,
    {
        if self.file() == 0 || self.rank() == 8 {
            return None;
        }
        Some(Square::new(self.0 - 9))
    }

    /// The square diagonally up and right, or `None` on those edges.
    pub fn due_ne(&self) -> (r: Option<Square>)
        requires
            self@ < 64,
        ensures
            self@ % 8 != 7 && self@ >= 8 ==> (r matches Some(sq) && sq@ == self@ - 7),
            self@ % 8 == 7 || self@ < 8 ==> r is None,
    {
        if self.file() == 7 || self.rank() == 8 {
            return None;
        }
        Some(Square::new(self.0 - 7))
    }

    /// The square diagonally down and left, or `None` on those edges.
    pub fn due_sw(&self) -> (r: Option<Square>)
        requires
            self@ < 64,
        ensures
            self@ % 8 != 0 && self@ < 56 ==> (r matches Some(sq) && sq@ == self@ + 7),
            self@ % 8 == 0 || self@ >= 56 ==> r is None,
    {
        if self.file() == 0 || self.rank() == 1 {
            return None;
        }
        Some(Square::new(self.0 + 7))
    }

    /// The square diagonally down and right, or `None` on those edges.
    pub fn due_se(&self) -> (r: Option<Square>)
        requires
            self@ < 64,
        ensures
            self@ % 8 != 7 && self@ < 56 ==> (r matches Some(sq) && sq@ == self@ + 9),
            self@ % 8 == 7 || self@ >= 56 ==> r is None,
    {
        if self.file() == 7 || self.rank() == 1 {
            return None;
        }
        Some(Square::new(self.0 + 9))
    }
}

} // verus!
