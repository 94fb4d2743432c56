//! Piece kinds, ordered as the board's bitsets are: king, queen, rook,
//! bishop, knight, pawn.

use vstd::prelude::*;
use crate::color::Color;

verus! {

/// A kind of chess piece, without its color.
#[derive(Clone, Copy, Debug, PartialEq, Eq, Structural)]
pub enum Piece {
    King,
    Queen,
    Rook,
    Bishop,
    Knight,
    Pawn,
}

/// The position a piece kind takes in the fixed bitset order.
pub open spec fn piece_index(p: Piece) -> int {
    match p {
        Piece::King => 0,
        Piece::Queen => 1,
        Piece::Rook => 2,
        Piece::Bishop => 3,
        Piece::Knight => 4,
        Piece::Pawn => 5,
    }
}

impl Piece {
    /// The piece kind stored at a bitset index: indexes 0..5 are the White
    /// pieces and 6..11 the Black pieces, in the same kind order.
    pub fn from_index(i: u8) -> (r: Option<Piece>)
        ensures
            i < 12 ==> (r matches Some(p) && piece_index(p) == i % 6),
            i >= 12 ==> r is None,
    {
        match i {
            0 => Some(Piece::King),
            1 => Some(Piece::Queen),
            2 => Some(Piece::Rook),
            3 => Some(Piece::Bishop),
            4 => Some(Piece::Knight),
            5 => Some(Piece::Pawn),
            6 => Some(Piece::King),
            7 => Some(Piece::Queen),
            8 => Some(Piece::Rook),
            9 => Some(Piece::Bishop),
            10 => Some(Piece::Knight),
            11 => Some(Piece::Pawn),
            _ => None,
        }
    }

    /// The index of the piece kind as usize.
    pub fn to_index(&self) -> (r: usize)
        ensures
            r == piece_index(*self),
    {
        match self {
            Piece::King => 0,
            Piece::Queen => 1,
            Piece::Rook => 2,
            Piece::Bishop => 3,
            Piece::Knight => 4,
            Piece::Pawn => 5,
        }
    }

    /// The index of the piece kind as u8.
    pub fn to_int(&self) -> (r: u8)
        ensures
            r == piece_index(*self),
    {
        match self {
            Piece::King => 0,
            Piece::Queen => 1,
            Piece::Rook => 2,
            Piece::Bishop => 3,
            Piece::Knight => 4,
            Piece::Pawn => 5,
        }
    }

    /// The one-letter name of the piece: upper case for White, lower case
    /// for Black.
    pub fn as_str(&self, color: Color) -> (r: &'static str)
    {
        match color {
            Color::WHITE => {
                match self {
                    Piece::King => "K",
                    Piece::Queen => "Q",
                    Piece::Rook => "R",
                    Piece::Bishop => "B",
                    Piece::Knight => "N",
                    Piece::Pawn => "P",
                }
            },
            Color::BLACK => {
                match self {
                    Piece::King => "k",
                    Piece::Queen => "q",
                    Piece::Rook => "r",
                    Piece::Bishop => "b",
                    Piece::Knight => "n",
                    Piece::Pawn => "p",
                }
            },
        }
    }
}

} // verus!
