//! The two sides of the game.

use vstd::prelude::*;

verus! {

/// A side: White moves first and plays up the board, Black plays down.
#[allow(non_camel_case_types)]
#[derive(Clone, Copy, Debug, PartialEq, Eq, Structural)]
pub enum Color {
    WHITE,
    BLACK,
}

/// The index a color selects in color-indexed tables: 0 for White, 1 for
/// Black.
pub open spec fn color_index(c: Color) -> int {
    match c {
        Color::WHITE => 0,
        Color::BLACK => 1,
    }
}

/// The other side.
pub open spec fn opposite(c: Color) -> Color {
    match c {
        Color::WHITE => Color::BLACK,
        Color::BLACK => Color::WHITE,
    }
}

impl Color {
    /// The index of the color: 0 for White, 1 for Black.
    pub fn to_index(&self) -> (r: usize)
        ensures
            r == color_index(*self),
    {
        match self {
            Color::WHITE => 0,
            Color::BLACK => 1,
        }
    }

    /// The other side.
    pub fn other(&self) -> (r: Color)
        ensures
            r == opposite(*self),
    {
        match self {
            Color::WHITE => Color::BLACK,
            Color::BLACK => Color::WHITE,
        }
    }
}

} // verus!
