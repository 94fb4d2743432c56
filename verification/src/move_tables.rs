//! Precomputed per-square attack and push tables for the non-sliding
//! pieces, built once at startup and read-only afterwards. Every entry is
//! a fixed bit-shift of the square's own bit, masked against file-boundary
//! constants so that no move wraps around a board edge.

use vstd::prelude::*;

verus! {

/// All squares but the a-file.
pub const NOT_A_FILE: u64 = 18374403900871474942;

/// All squares but the h-file.
pub const NOT_H_FILE: u64 = 9187201950435737471;

/// All squares but the a- and b-files.
pub const NOT_AB_FILE: u64 = 18229723555195321596;

/// All squares but the g- and h-files.
pub const NOT_GH_FILE: u64 = 4557430888798830399;

/// The single-push destination of a pawn of color index `c` on square `i`:
/// one rank up for White, one rank down for Black.
pub open spec fn pawn_push_entry(c: int, i: u64) -> u64 {
    if c == 0 {
        (1u64 << i) >> 8
    } else {
        (1u64 << i) << 8
    }
}

/// The double-push destination of a pawn of color index `c` on square `i`,
/// defined only on each side's starting pawn rank.
pub open spec fn pawn_double_push_entry(c: int, i: u64) -> u64 {
    if c == 0 {
        if i / 8 == 6 {
            (1u64 << i) >> 16
        } else {
            0
        }
    } else {
        if i / 8 == 1 {
            (1u64 << i) << 16
        } else {
            0
        }
    }
}

/// The capture-attack squares of a pawn of color index `c` on square `i`.
pub open spec fn pawn_attack_entry(c: int, i: u64) -> u64 {
    if c == 0 {
        (((1u64 << i) >> 7) & NOT_A_FILE) | (((1u64 << i) >> 9) & NOT_H_FILE)
    } else {
        (((1u64 << i) << 7) & NOT_H_FILE) | (((1u64 << i) << 9) & NOT_A_FILE)
    }
}

/// The attack squares of a knight on square `i`.
pub open spec fn knight_attack_entry(i: u64) -> u64 {
    (((1u64 << i) >> 15) & NOT_A_FILE) | (((1u64 << i) >> 17) & NOT_H_FILE) | (((1u64 << i) >> 6)
        & NOT_AB_FILE) | (((1u64 << i) >> 10) & NOT_GH_FILE) | (((1u64 << i) << 15) & NOT_H_FILE)
        | (((1u64 << i) << 17) & NOT_A_FILE) | (((1u64 << i) << 6) & NOT_GH_FILE) | (((1u64 << i)
        << 10) & NOT_AB_FILE)
}

/// The attack squares of a king on square `i`.
pub open spec fn king_attack_entry(i: u64) -> u64 {
    (((1u64 << i) >> 7) & NOT_A_FILE) | ((1u64 << i) >> 8) | (((1u64 << i) >> 9) & NOT_H_FILE) | ((
    (1u64 << i) >> 1) & NOT_H_FILE) | (((1u64 << i) << 1) & NOT_A_FILE) | (((1u64 << i) << 7)
        & NOT_H_FILE) | ((1u64 << i) << 8) | (((1u64 << i) << 9) & NOT_A_FILE)
}

/// The precomputed leaper tables, one bitset per square (and per color for
/// the pawn tables, White first).
pub struct MoveTables {
    pub pawn_pushes: Vec<Vec<u64>>,
    pub pawn_double_pushes: Vec<Vec<u64>>,
    pub pawn_attacks: Vec<Vec<u64>>,
    pub knight_attacks: Vec<u64>,
    pub king_attacks: Vec<u64>,
}

impl MoveTables {
    /// Every table has its full 64 entries per color, and every entry is
    /// exactly the masked-shift bitset its square calls for.
    pub open spec fn wf(self) -> bool {
        &&& self.pawn_pushes@.len() == 2
        &&& self.pawn_double_pushes@.len() == 2
        &&& self.pawn_attacks@.len() == 2
        &&& self.knight_attacks@.len() == 64
        &&& self.king_attacks@.len() == 64
        &&& forall|c: int| 0 <= c < 2 ==> (#[trigger] self.pawn_pushes@[c])@.len() == 64
        &&& forall|c: int| 0 <= c < 2 ==> (#[trigger] self.pawn_double_pushes@[c])@.len() == 64
        &&& forall|c: int| 0 <= c < 2 ==> (#[trigger] self.pawn_attacks@[c])@.len() == 64
        &&& forall|c: int, i: u64|
            0 <= c < 2 && i < 64 ==> (#[trigger] self.pawn_pushes@[c]@[i as int])
                == pawn_push_entry(c, i)
        &&& forall|c: int, i: u64|
            0 <= c < 2 && i < 64 ==> (#[trigger] self.pawn_double_pushes@[c]@[i as int])
                == pawn_double_push_entry(c, i)
        &&& forall|c: int, i: u64|
            0 <= c < 2 && i < 64 ==> (#[trigger] self.pawn_attacks@[c]@[i as int])
                == pawn_attack_entry(c, i)
        &&& forall|i: u64| i < 64 ==> (#[trigger] self.knight_attacks@[i as int])
            == knight_attack_entry(i)
        &&& forall|i: u64| i < 64 ==> (#[trigger] self.king_attacks@[i as int])
            == king_attack_entry(i)
    }
}

fn gen_pawn_pushes() -> (r: Vec<Vec<u64>>)
    ensures
        r@.len() == 2,
        forall|c: int| 0 <= c < 2 ==> (#[trigger] r@[c])@.len() == 64,
        forall|c: int, i: u64|
            0 <= c < 2 && i < 64 ==> (#[trigger] r@[c]@[i as int]) == pawn_push_entry(c, i),
{
    let mut white: Vec<u64> = Vec::new();
    let mut black: Vec<u64> = Vec::new();
    let mut i: u8 = 0;
    while i < 64
        invariant
            i <= 64,
            white@.len() == i,
            black@.len() == i,
            forall|j: u64| j < i ==> (#[trigger] white@[j as int]) == pawn_push_entry(0, j),
            forall|j: u64| j < i ==> (#[trigger] black@[j as int]) == pawn_push_entry(1, j),
        decreases 64 - i,
    {
        let loc = 1u64 << i;
        white.push(loc >> 8);
        black.push(loc << 8);
        i = i + 1;
    }
    let mut r: Vec<Vec<u64>> = Vec::new();
    r.push(white);
    r.push(black);
    r
}

fn gen_pawn_double_pushes() -> (r: Vec<Vec<u64>>)
    ensures
        r@.len() == 2,
        forall|c: int| 0 <= c < 2 ==> (#[trigger] r@[c])@.len() == 64,
        forall|c: int, i: u64|
            0 <= c < 2 && i < 64 ==> (#[trigger] r@[c]@[i as int]) == pawn_double_push_entry(c, i),
{
    let mut white: Vec<u64> = Vec::new();
    let mut black: Vec<u64> = Vec::new();
    let mut i: u8 = 0;
    while i < 64
        invariant
            i <= 64,
            white@.len() == i,
            black@.len() == i,
            forall|j: u64| j < i ==> (#[trigger] white@[j as int]) == pawn_double_push_entry(0, j),
            forall|j: u64| j < i ==> (#[trigger] black@[j as int]) == pawn_double_push_entry(1, j),
        decreases 64 - i,
    {
        let loc = 1u64 << i;
        if i / 8 == 6 {
            white.push(loc >> 16);
        } else {
            white.push(0);
        }
        if i / 8 == 1 {
            black.push(loc << 16);
        } else {
            black.push(0);
        }
        i = i + 1;
    }
    let mut r: Vec<Vec<u64>> = Vec::new();
    r.push(white);
    r.push(black);
    r
}

fn gen_pawn_attacks() -> (r: Vec<Vec<u64>>)
    ensures
        r@.len() == 2,
        forall|c: int| 0 <= c < 2 ==> (#[trigger] r@[c])@.len() == 64,
        forall|c: int, i: u64|
            0 <= c < 2 && i < 64 ==> (#[trigger] r@[c]@[i as int]) == pawn_attack_entry(c, i),
{
    let mut white: Vec<u64> = Vec::new();
    let mut black: Vec<u64> = Vec::new();
    let mut i: u8 = 0;
    while i < 64
        invariant
            i <= 64,
            white@.len() == i,
            black@.len() == i,
            forall|j: u64| j < i ==> (#[trigger] white@[j as int]) == pawn_attack_entry(0, j),
            forall|j: u64| j < i ==> (#[trigger] black@[j as int]) == pawn_attack_entry(1, j),
        decreases 64 - i,
    {
        let loc = 1u64 << i;
        white.push(((loc >> 7) & NOT_A_FILE) | ((loc >> 9) & NOT_H_FILE));
        black.push(((loc << 7) & NOT_H_FILE) | ((loc << 9) & NOT_A_FILE));
        i = i + 1;
    }
    let mut r: Vec<Vec<u64>> = Vec::new();
    r.push(white);
    r.push(black);
    r
}

fn gen_knight_attacks() -> (r: Vec<u64>)
    ensures
        r@.len() == 64,
        forall|i: u64| i < 64 ==> (#[trigger] r@[i as int]) == knight_attack_entry(i),
{
    let mut table: Vec<u64> = Vec::new();
    let mut i: u8 = 0;
    while i < 64
        invariant
            i <= 64,
            table@.len() == i,
            forall|j: u64| j < i ==> (#[trigger] table@[j as int]) == knight_attack_entry(j),
        decreases 64 - i,
    {
        let loc = 1u64 << i;
        table.push(
            ((loc >> 15) & NOT_A_FILE) | ((loc >> 17) & NOT_H_FILE) | ((loc >> 6) & NOT_AB_FILE) | (
            (loc >> 10) & NOT_GH_FILE) | ((loc << 15) & NOT_H_FILE) | ((loc << 17) & NOT_A_FILE) | (
            (loc << 6) & NOT_GH_FILE) | ((loc << 10) & NOT_AB_FILE),
        );
        i = i + 1;
    }
    table
}

fn gen_king_attacks() -> (r: Vec<u64>)
    ensures
        r@.len() == 64,
        forall|i: u64| i < 64 ==> (#[trigger] r@[i as int]) == king_attack_entry(i),
{
    let mut table: Vec<u64> = Vec::new();
    let mut i: u8 = 0;
    while i < 64
        invariant
            i <= 64,
            table@.len() == i,
            forall|j: u64| j < i ==> (#[trigger] table@[j as int]) == king_attack_entry(j),
        decreases 64 - i,
    {
        let loc = 1u64 << i;
        table.push(
            ((loc >> 7) & NOT_A_FILE) | (loc >> 8) | ((loc >> 9) & NOT_H_FILE) | ((loc >> 1)
                & NOT_H_FILE) | ((loc << 1) & NOT_A_FILE) | ((loc << 7) & NOT_H_FILE) | (loc << 8)
                | ((loc << 9) & NOT_A_FILE),
        );
        i = i + 1;
    }
    table
}

/// Build every leaper table. The result is an immutable value: it is
/// handed by reference to whatever reads it and never changed again.
pub fn gen_tables() -> (r: MoveTables)
    ensures
        r.wf(),
{
    MoveTables {
        pawn_pushes: gen_pawn_pushes(),
        pawn_double_pushes: gen_pawn_double_pushes(),
        pawn_attacks: gen_pawn_attacks(),
        knight_attacks: gen_knight_attacks(),
        king_attacks: gen_king_attacks(),
    }
}

} // verus!
