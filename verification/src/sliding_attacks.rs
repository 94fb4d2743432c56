//! On-demand sliding attacks: from a square, walk one square at a time
//! along each ray direction until the board edge or an occupied square is
//! reached; the occupied square itself is included (it may be captured),
//! but nothing beyond it.

use vstd::prelude::*;
use crate::bitboard::Bitboard;
use crate::bitboard::bit64;
use crate::bitboard::lemma_bit64_ops;
use crate::bitboard::lemma_or64;
use crate::square::Square;

verus! {

/// A ray direction, named from White's point of view: north is toward
/// rank 8 (lower indexes).
#[derive(Clone, Copy, Debug, PartialEq, Eq, Structural)]
pub enum Direction {
    North,
    South,
    West,
    East,
    NorthWest,
    NorthEast,
    SouthWest,
    SouthEast,
}

/// How a direction changes a square's file.
pub open spec fn dir_df(d: Direction) -> int {
    match d {
        Direction::North => 0,
        Direction::South => 0,
        Direction::West => -1,
        Direction::East => 1,
        Direction::NorthWest => -1,
        Direction::NorthEast => 1,
        Direction::SouthWest => -1,
        Direction::SouthEast => 1,
    }
}

/// How a direction changes a square's row, counted from the top of the
/// printed board: north decreases the row.
pub open spec fn dir_dr(d: Direction) -> int {
    match d {
        Direction::North => -1,
        Direction::South => 1,
        Direction::West => 0,
        Direction::East => 0,
        Direction::NorthWest => -1,
        Direction::NorthEast => -1,
        Direction::SouthWest => 1,
        Direction::SouthEast => 1,
    }
}

/// Whether one more step along (df, dr) stays on the board.
pub open spec fn ray_step_ok(i: int, df: int, dr: int) -> bool {
    &&& 0 <= i < 64
    &&& 0 <= i % 8 + df < 8
    &&& 0 <= i / 8 + dr < 8
}

/// The squares a ray reaches from `i` along (df, dr), walking at most
/// `fuel` steps: each next square is included, and the walk stops at the
/// board edge or just after the first square occupied in `blockers`.
pub open spec fn ray_walk(i: int, df: int, dr: int, blockers: u64, fuel: nat) -> u64
    decreases fuel,
{
    if fuel == 0 {
        0
    } else if !ray_step_ok(i, df, dr) {
        0
    } else {
        let n = i + dr * 8 + df;
        (1u64 << (n as u64)) | (if bit64(blockers, n as u64) {
            0u64
        } else {
            ray_walk(n, df, dr, blockers, (fuel - 1) as nat)
        })
    }
}

/// How many steps along `d` from coordinate `x` stay within 0..8.
pub open spec fn axis_dist(x: int, d: int) -> int {
    if d > 0 {
        7 - x
    } else if d < 0 {
        x
    } else {
        7
    }
}

/// How many steps along (df, dr) from square `i` stay on the board.
pub open spec fn edge_dist(i: int, df: int, dr: int) -> int {
    if axis_dist(i % 8, df) <= axis_dist(i / 8, dr) {
        axis_dist(i % 8, df)
    } else {
        axis_dist(i / 8, dr)
    }
}

/// Any fuel at least the distance to the edge walks the whole ray.
proof fn lemma_ray_walk_fuel(i: int, df: int, dr: int, blockers: u64, f1: nat, f2: nat)
    requires
        0 <= i < 64,
        -1 <= df <= 1,
        -1 <= dr <= 1,
        !(df == 0 && dr == 0),
        f1 >= edge_dist(i, df, dr),
        f2 >= edge_dist(i, df, dr),
    ensures
        ray_walk(i, df, dr, blockers, f1) == ray_walk(i, df, dr, blockers, f2),
    decreases f1 + f2,
{
    if !ray_step_ok(i, df, dr) {
    } else {
        assert(edge_dist(i, df, dr) >= 1);
        let n = i + dr * 8 + df;
        assert(n % 8 == i % 8 + df && n / 8 == i / 8 + dr) by (nonlinear_arith)
            requires
                0 <= i < 64 && -1 <= df <= 1 && -1 <= dr <= 1 && 0 <= i % 8 + df < 8 && 0 <= i / 8
                    + dr < 8 && n == i + dr * 8 + df,
        ;
        assert(edge_dist(n, df, dr) == edge_dist(i, df, dr) - 1);
        if !bit64(blockers, n as u64) {
            lemma_ray_walk_fuel(n, df, dr, blockers, (f1 - 1) as nat, (f2 - 1) as nat);
        }
    }
}

/// Whether square `j` lies exactly `k` steps along (df, dr) from `i`.
pub open spec fn on_ray(i: int, df: int, dr: int, j: int, k: int) -> bool {
    1 <= k && j % 8 == i % 8 + k * df && j / 8 == i / 8 + k * dr
}

/// Every square on a ray lies `k >= 1` steps along the ray's direction
/// from the starting square: no ray includes its own origin, and no ray
/// leaves the origin's line.
pub proof fn lemma_ray_walk_on_line(i: int, df: int, dr: int, blockers: u64, fuel: nat)
    requires
        0 <= i < 64,
        -1 <= df <= 1,
        -1 <= dr <= 1,
        !(df == 0 && dr == 0),
    ensures
        forall|j: u64|
            j < 64 && #[trigger] bit64(ray_walk(i, df, dr, blockers, fuel), j) ==> exists|k: int|
                #[trigger] on_ray(i, df, dr, j as int, k),
    decreases fuel,
{
    lemma_bit64_ops();
    if fuel == 0 || !ray_step_ok(i, df, dr) {
    } else {
        let n = i + dr * 8 + df;
        assert(n % 8 == i % 8 + df && n / 8 == i / 8 + dr) by (nonlinear_arith)
            requires
                0 <= i < 64 && -1 <= df <= 1 && -1 <= dr <= 1 && 0 <= i % 8 + df < 8 && 0 <= i / 8
                    + dr < 8 && n == i + dr * 8 + df,
        ;
        lemma_ray_walk_on_line(n, df, dr, blockers, (fuel - 1) as nat);
        assert forall|j: u64|
            j < 64 && #[trigger] bit64(ray_walk(i, df, dr, blockers, fuel), j) implies exists|
            k: int,
        | #[trigger] on_ray(i, df, dr, j as int, k) by {
            if j == n {
                assert((j as int) % 8 == i % 8 + 1 * df && (j as int) / 8 == i / 8 + 1 * dr);
                assert(on_ray(i, df, dr, j as int, 1));
            } else {
                assert(!bit64(1u64 << (n as u64), j));
                assert(!bit64(blockers, n as u64) && bit64(
                    ray_walk(n, df, dr, blockers, (fuel - 1) as nat),
                    j,
                ));
                let k0 = choose|k0: int| #[trigger] on_ray(n, df, dr, j as int, k0);
                assert((j as int) % 8 == i % 8 + (k0 + 1) * df && (j as int) / 8 == i / 8 + (k0 + 1)
                    * dr) by (nonlinear_arith)
                    requires
                        (j as int) % 8 == n % 8 + k0 * df && (j as int) / 8 == n / 8 + k0 * dr && n
                            % 8 == i % 8 + df && n / 8 == i / 8 + dr,
                ;
                assert(on_ray(i, df, dr, j as int, k0 + 1));
            }
        }
    }
}

/// The union of the four diagonal rays from a square, stopped by the
/// given occupancy.
pub open spec fn bishop_rays(sq: int, blockers: u64) -> u64 {
    ray_walk(sq, -1, 1, blockers, 8) | ray_walk(sq, 1, 1, blockers, 8) | ray_walk(
        sq,
        1,
        -1,
        blockers,
        8,
    ) | ray_walk(sq, -1, -1, blockers, 8)
}

/// The union of the four orthogonal rays from a square, stopped by the
/// given occupancy.
pub open spec fn rook_rays(sq: int, blockers: u64) -> u64 {
    ray_walk(sq, 0, -1, blockers, 8) | ray_walk(sq, 0, 1, blockers, 8) | ray_walk(
        sq,
        -1,
        0,
        blockers,
        8,
    ) | ray_walk(sq, 1, 0, blockers, 8)
}

/// All eight rays from a square, stopped by the given occupancy.
pub open spec fn queen_rays(sq: int, blockers: u64) -> u64 {
    bishop_rays(sq, blockers) | rook_rays(sq, blockers)
}

/// A ray never includes its own starting square.
pub proof fn lemma_rays_exclude_origin(sq: int, blockers: u64)
    requires
        0 <= sq < 64,
    ensures
        !bit64(bishop_rays(sq, blockers), sq as u64),
        !bit64(rook_rays(sq, blockers), sq as u64),
        !bit64(queen_rays(sq, blockers), sq as u64),
{
    lemma_bit64_ops();
    lemma_ray_walk_on_line(sq, -1, 1, blockers, 8);
    lemma_ray_walk_on_line(sq, 1, 1, blockers, 8);
    lemma_ray_walk_on_line(sq, 1, -1, blockers, 8);
    lemma_ray_walk_on_line(sq, -1, -1, blockers, 8);
    lemma_ray_walk_on_line(sq, 0, -1, blockers, 8);
    lemma_ray_walk_on_line(sq, 0, 1, blockers, 8);
    lemma_ray_walk_on_line(sq, -1, 0, blockers, 8);
    lemma_ray_walk_on_line(sq, 1, 0, blockers, 8);
}

/// No wraparound: every square of an orthogonal ray shares the starting
/// square's file or its row.
pub proof fn lemma_rook_rays_on_lines(sq: int, blockers: u64, j: u64)
    requires
        0 <= sq < 64,
        j < 64,
        bit64(rook_rays(sq, blockers), j),
    ensures
        (j as int) % 8 == sq % 8 || (j as int) / 8 == sq / 8,
        j != sq,
{
    lemma_bit64_ops();
    lemma_ray_walk_on_line(sq, 0, -1, blockers, 8);
    lemma_ray_walk_on_line(sq, 0, 1, blockers, 8);
    lemma_ray_walk_on_line(sq, -1, 0, blockers, 8);
    lemma_ray_walk_on_line(sq, 1, 0, blockers, 8);
}

/// No wraparound: every square of a diagonal ray is displaced from the
/// starting square by the same non-zero amount in file as in row.
pub proof fn lemma_bishop_rays_on_diagonals(sq: int, blockers: u64, j: u64)
    requires
        0 <= sq < 64,
        j < 64,
        bit64(bishop_rays(sq, blockers), j),
    ensures
        ((j as int) % 8 - sq % 8 == (j as int) / 8 - sq / 8 || (j as int) % 8 - sq % 8 == sq / 8 - (
        j as int) / 8),
        (j as int) % 8 != sq % 8,
        (j as int) / 8 != sq / 8,
        j != sq,
{
    lemma_bit64_ops();
    lemma_ray_walk_on_line(sq, -1, 1, blockers, 8);
    lemma_ray_walk_on_line(sq, 1, 1, blockers, 8);
    lemma_ray_walk_on_line(sq, 1, -1, blockers, 8);
    lemma_ray_walk_on_line(sq, -1, -1, blockers, 8);
}

/// One step along a direction, or `None` at the board edge.
fn step(sq: Square, d: Direction) -> (r: Option<Square>)
    requires
        sq@ < 64,
    ensures
        ray_step_ok(sq@ as int, dir_df(d), dir_dr(d)) ==> (r matches Some(s) && s@ == sq@ + dir_dr(
            d,
        ) * 8 + dir_df(d)),
        !ray_step_ok(sq@ as int, dir_df(d), dir_dr(d)) ==> r is None,
{
    match d {
        Direction::North => sq.due_n(),
        Direction::South => sq.due_s(),
        Direction::West => sq.due_w(),
        Direction::East => sq.due_e(),
        Direction::NorthWest => sq.due_nw(),
        Direction::NorthEast => sq.due_ne(),
        Direction::SouthWest => sq.due_sw(),
        Direction::SouthEast => sq.due_se(),
    }
}

/// Walk one ray, collecting every square reached.
fn walk_ray(square: Square, d: Direction, blockers: Bitboard) -> (r: u64)
    requires
        square@ < 64,
    ensures
        r == ray_walk(square@ as int, dir_df(d), dir_dr(d), blockers@, 8),
{
    let ghost df = dir_df(d);
    let ghost dr = dir_dr(d);
    let ghost goal = ray_walk(square@ as int, df, dr, blockers@, 8);
    proof {
        lemma_or64();
    }
    let mut attacks: u64 = 0;
    let mut sq = square;
    let mut running = true;
    while running
        invariant
            -1 <= df <= 1,
            -1 <= dr <= 1,
            !(df == 0 && dr == 0),
            df == dir_df(d) && dr == dir_dr(d),
            goal == ray_walk(square@ as int, df, dr, blockers@, 8),
            sq@ < 64,
            running ==> (attacks | ray_walk(sq@ as int, df, dr, blockers@, 8)) == goal,
            !running ==> attacks == goal,
        decreases edge_dist(sq@ as int, df, dr) + (if running { 1int } else { 0int }),
    {
        proof {
            lemma_or64();
            if ray_step_ok(sq@ as int, df, dr) {
                let n = sq@ as int + dr * 8 + df;
                assert(n % 8 == sq@ % 8 + df && n / 8 == sq@ / 8 + dr) by (nonlinear_arith)
                    requires
                        sq@ < 64 && -1 <= df <= 1 && -1 <= dr <= 1 && 0 <= (sq@ as int) % 8 + df < 8
                            && 0 <= (sq@ as int) / 8 + dr < 8 && n == sq@ as int + dr * 8 + df,
                ;
                assert(edge_dist(n, df, dr) == edge_dist(sq@ as int, df, dr) - 1);
                lemma_ray_walk_fuel(n, df, dr, blockers@, 7, 8);
            }
        }
        match step(sq, d) {
            None => {
                running = false;
            },
            Some(next) => {
                attacks = attacks | (1u64 << next.to_int());
                if blockers.get_bit_by_square(next) == 1 {
                    running = false;
                } else {
                    sq = next;
                }
            },
        }
    }
    attacks
}

/// Generate bishop rays at a square for the current board blockers.
pub fn get_bishop_rays(square: Square, blockers: Bitboard) -> (r: Bitboard)
    requires
        square@ < 64,
    ensures
        r@ == bishop_rays(square@ as int, blockers@),
{
    let sw = walk_ray(square, Direction::SouthWest, blockers);
    let se = walk_ray(square, Direction::SouthEast, blockers);
    let ne = walk_ray(square, Direction::NorthEast, blockers);
    let nw = walk_ray(square, Direction::NorthWest, blockers);
    Bitboard::new(sw | se | ne | nw)
}

/// Generate rook rays at a square for the current board blockers.
pub fn get_rook_rays(square: Square, blockers: Bitboard) -> (r: Bitboard)
    requires
        square@ < 64,
    ensures
        r@ == rook_rays(square@ as int, blockers@),
{
    let n = walk_ray(square, Direction::North, blockers);
    let s = walk_ray(square, Direction::South, blockers);
    let w = walk_ray(square, Direction::West, blockers);
    let e = walk_ray(square, Direction::East, blockers);
    Bitboard::new(n | s | w | e)
}

/// Generate queen rays at a square for the current board blockers: the
/// union of the bishop and rook rays.
pub fn get_queen_rays(square: Square, blockers: Bitboard) -> (r: Bitboard)
    requires
        square@ < 64,
    ensures
        r@ == queen_rays(square@ as int, blockers@),
{
    Bitboard::new(get_bishop_rays(square, blockers).to_int() | get_rook_rays(
        square,
        blockers,
    ).to_int())
}

} // verus!
