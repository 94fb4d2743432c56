//! A diagnostic full-tree traversal: count the leaf nodes of the legal
//! move tree to a fixed depth, by generating, applying, recursing and
//! restoring at every level.

use vstd::prelude::*;
use crate::board::Board;
use crate::board::BoardV;
use crate::board::core_of;
use crate::board::lemma_legal_core;
use crate::board::lemma_make_move_core;
use crate::board::spec_legal;
use crate::board::spec_make_move;
use crate::move_tables::MoveTables;
use crate::movegen::lemma_gen_moves_core;
use crate::movegen::spec_gen_moves;
use crate::piece_move::Move;

verus! {

/// The exact leaf count of the legal move tree below a position: one at
/// depth zero, else the sum over the generated moves that are legal of
/// the count one level down. A function of the position fields alone.
pub open spec fn spec_perft(v: BoardV, depth: u8) -> int
    decreases depth, 1int, 0int,
{
    if depth == 0 {
        1
    } else {
        perft_sum(core_of(v), spec_gen_moves(v), 0, depth)
    }
}

/// The leaf counts the moves `ms[i..]` of position `nv` contribute, one
/// level down each.
pub open spec fn perft_sum(nv: BoardV, ms: Seq<Move>, i: int, depth: u8) -> int
    decreases depth, 0int, ms.len() - i,
{
    if depth == 0 || i < 0 || i >= ms.len() {
        0
    } else {
        (if spec_legal(nv, ms[i]) {
            spec_perft(spec_make_move(nv, ms[i]).0, (depth - 1) as u8)
        } else {
            0
        }) + perft_sum(nv, ms, i + 1, depth)
    }
}

/// Leaf counts are never negative.
pub proof fn lemma_perft_nonneg(v: BoardV, depth: u8)
    ensures
        spec_perft(v, depth) >= 0,
    decreases depth, 1int, 0int,
{
    if depth != 0 {
        lemma_perft_sum_nonneg(core_of(v), spec_gen_moves(v), 0, depth);
    }
}

proof fn lemma_perft_sum_nonneg(nv: BoardV, ms: Seq<Move>, i: int, depth: u8)
    ensures
        perft_sum(nv, ms, i, depth) >= 0,
    decreases depth, 0int, ms.len() - i,
{
    if !(depth == 0 || i < 0 || i >= ms.len()) {
        if spec_legal(nv, ms[i]) {
            lemma_perft_nonneg(spec_make_move(nv, ms[i]).0, (depth - 1) as u8);
        }
        lemma_perft_sum_nonneg(nv, ms, i + 1, depth);
    }
}

/// The counting depends only on the position fields.
proof fn lemma_perft_core(v1: BoardV, v2: BoardV, depth: u8)
    requires
        v1.bbs == v2.bbs,
        v1.to_move == v2.to_move,
        v1.castling_rights == v2.castling_rights,
        v1.en_passant == v2.en_passant,
        v1.in_check == v2.in_check,
    ensures
        spec_perft(v1, depth) == spec_perft(v2, depth),
{
    if depth != 0 {
        lemma_gen_moves_core(v1, v2);
        assert(core_of(v1) == core_of(v2));
    }
}

/// A count clipped to what a `u128` can hold.
pub open spec fn sat128(x: int) -> int {
    if x > u128::MAX as int {
        u128::MAX as int
    } else {
        x
    }
}

/// Count the leaf nodes of the legal move tree below the position, to
/// the given depth: exactly `spec_perft`, saturating at `u128::MAX`. The
/// board is left with every field it came with, apart from its move
/// list.
pub fn perft_driver(board: &mut Board, tables: &MoveTables, depth: u8) -> (leafs: u128)
    requires
        old(board)@.wf(),
        old(board)@.has_kings(),
        tables.wf(),
    ensures
        leafs as int == sat128(spec_perft(old(board)@, depth)),
        final(board)@.wf(),
        final(board)@.has_kings(),
        final(board)@.bbs == old(board)@.bbs,
        final(board)@.to_move == old(board)@.to_move,
        final(board)@.castling_rights == old(board)@.castling_rights,
        final(board)@.en_passant == old(board)@.en_passant,
        final(board)@.in_check == old(board)@.in_check,
        depth == 0 ==> leafs == 1 && final(board)@ == old(board)@,
    decreases depth,
{
    if depth == 0 {
        return 1;
    }
    let copy = board.snapshot();
    board.gen_moves(tables);
    let moves = board.get_move_list().into_vec();
    let ghost v0 = old(board)@;
    let ghost nv = core_of(v0);
    let ghost total = spec_perft(v0, depth);
    proof {
        assert(moves@ == spec_gen_moves(v0));
        assert(total == perft_sum(nv, moves@, 0, depth));
        lemma_perft_sum_nonneg(nv, moves@, 0, depth);
    }
    let mut leafs: u128 = 0;
    let mut idx: usize = 0;
    while idx < moves.len()
        invariant
            tables.wf(),
            copy@ == v0,
            v0 == old(board)@,
            nv == core_of(v0),
            board@.wf(),
            board@.has_kings(),
            board@.bbs == v0.bbs,
            board@.to_move == v0.to_move,
            board@.castling_rights == v0.castling_rights,
            board@.en_passant == v0.en_passant,
            board@.in_check == v0.in_check,
            forall|j: int|
                0 <= j < moves@.len() ==> crate::movegen::move_plausible(v0, #[trigger] moves@[j]),
            idx <= moves@.len(),
            depth >= 1,
            total == perft_sum(nv, moves@, 0, depth),
            leafs as int == sat128(total - perft_sum(nv, moves@, idx as int, depth)),
            total - perft_sum(nv, moves@, idx as int, depth) >= 0,
            perft_sum(nv, moves@, idx as int, depth) >= 0,
        decreases moves@.len() - idx,
    {
        let ghost pre = board@;
        let ghost child_spec = spec_make_move(nv, moves@[idx as int]).0;
        proof {
            lemma_legal_core(nv, pre, moves@[idx as int]);
            lemma_make_move_core(nv, pre, moves@[idx as int]);
            lemma_perft_sum_nonneg(nv, moves@, idx as int + 1, depth);
            if spec_legal(nv, moves@[idx as int]) {
                lemma_perft_nonneg(child_spec, (depth - 1) as u8);
            }
        }
        if board.make_move(tables, moves[idx]) {
            let sub = perft_driver(board, tables, depth - 1);
            proof {
                lemma_perft_core(spec_make_move(pre, moves@[idx as int]).0, child_spec, (depth
                    - 1) as u8);
            }
            if leafs <= u128::MAX - sub {
                leafs = leafs + sub;
            } else {
                leafs = u128::MAX;
            }
        }
        *board = copy.snapshot();
        idx = idx + 1;
    }
    leafs
}

} // verus!
