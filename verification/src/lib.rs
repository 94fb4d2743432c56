//! A bitset-based chess move generator and fixed-depth tree search.
//!
//! The board is a set of twelve 64-bit piece bitsets; move generation
//! combines precomputed leaper tables with on-demand sliding-ray walks,
//! and the search is a negamax over cloned positions with an optional
//! alpha-beta window.

pub mod bitboard;
pub mod board;
pub mod color;
pub mod evaluate;
pub mod move_tables;
pub mod movegen;
pub mod negamax;
pub mod parse;
pub mod perft;
pub mod piece;
pub mod piece_move;
pub mod sliding_attacks;
pub mod square;
