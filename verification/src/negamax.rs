//! Fixed-depth negamax search with an optional alpha-beta window. Every
//! branch works on its own snapshot of the position: a move is applied in
//! place, and the position is restored from the snapshot afterwards
//! whether or not the move was legal.

use vstd::prelude::*;
use crate::board::Board;
use crate::board::BoardV;
use crate::board::core_of;
use crate::board::lemma_legal_core;
use crate::board::lemma_make_move_core;
use crate::board::spec_legal;
use crate::board::spec_make_move;
use crate::evaluate::eval;
use crate::evaluate::spec_eval;
use crate::move_tables::MoveTables;
use crate::movegen::lemma_gen_moves_core;
use crate::movegen::spec_gen_moves;
use crate::piece_move::Move;
use crate::piece_move::SpecialMove;
use crate::piece_move::spec_move;

verus! {

/// The score of a position where the side to move has no legal move and
/// stands in check, from the mover's own perspective: the worst score the
/// search can return.
pub const CHECKMATE_SCORE: i32 = -10000000;

/// The score bound the search works inside: no position evaluates outside
/// the open interval between `-SCORE_LIMIT` and `SCORE_LIMIT`, and only
/// checkmate reaches the bounds themselves.
pub const SCORE_LIMIT: i32 = 10000000;

/// No move of the list is legal on the board: applying any of them leaves
/// the mover's own king attacked.
pub open spec fn no_legal_in(v: BoardV, ms: Seq<Move>) -> bool {
    forall|i: int| 0 <= i < ms.len() ==> !spec_legal(v, #[trigger] ms[i])
}

/// The position has no legal move at all: no generated move is legal.
pub open spec fn position_has_no_legal_move(v: BoardV) -> bool {
    no_legal_in(core_of(v), spec_gen_moves(v))
}

/// The best negated child value over the legal moves of `ms[i..]`, or
/// `i32::MIN` when none of them is legal.
pub open spec fn best_from(nv: BoardV, ms: Seq<Move>, i: int, depth: u8) -> int
    decreases depth, 0int, ms.len() - i,
{
    if depth == 0 || i < 0 || i >= ms.len() {
        i32::MIN as int
    } else {
        let rest = best_from(nv, ms, i + 1, depth);
        if spec_legal(nv, ms[i]) {
            let mine = -spec_negamax(spec_make_move(nv, ms[i]).0, (depth - 1) as u8);
            if rest > mine {
                rest
            } else {
                mine
            }
        } else {
            rest
        }
    }
}

/// The value of a position searched to a depth, from the perspective of
/// its side to move: the evaluation at depth zero; otherwise the maximum
/// over the legal generated moves of the negated child value, with
/// checkmate or stalemate scores when no generated move is legal. A
/// function of the position fields and the depth alone.
pub open spec fn spec_negamax(v: BoardV, depth: u8) -> int
    decreases depth, 1int, 0int,
{
    if depth == 0 {
        spec_eval(v.bbs, v.to_move)
    } else if position_has_no_legal_move(v) {
        if v.in_check {
            CHECKMATE_SCORE as int
        } else {
            0
        }
    } else {
        best_from(core_of(v), spec_gen_moves(v), 0, depth)
    }
}

/// The move a root scan of `ms[i..]` settles on, carrying the best score
/// and move found so far: a legal move whose negated child value strictly
/// exceeds the best seen replaces it, so ties keep the earliest find.
pub open spec fn root_pick(
    nv: BoardV,
    ms: Seq<Move>,
    i: int,
    depth: u8,
    best: int,
    chosen: Move,
) -> Move
    decreases ms.len() - i,
{
    if i < 0 || i >= ms.len() || depth == 0 {
        chosen
    } else {
        if spec_legal(nv, ms[i]) {
            let s = -spec_negamax(spec_make_move(nv, ms[i]).0, (depth - 1) as u8);
            if s > best {
                root_pick(nv, ms, i + 1, depth, s, ms[i])
            } else {
                root_pick(nv, ms, i + 1, depth, best, chosen)
            }
        } else {
            root_pick(nv, ms, i + 1, depth, best, chosen)
        }
    }
}

/// The move a root search of the position picks: the earliest generated
/// legal move whose negated child value is maximal, or the null move when
/// no generated move is legal.
pub open spec fn spec_best_move(v: BoardV, depth: u8) -> Move
    recommends
        depth >= 1,
{
    root_pick(
        core_of(v),
        spec_gen_moves(v),
        0,
        depth,
        i32::MIN as int,
        spec_move(0, 0, SpecialMove::Quiet),
    )
}

/// The suffix maximum dominates every legal move's negated child value
/// in the suffix.
proof fn lemma_best_from_bound(nv: BoardV, ms: Seq<Move>, i: int, j: int, depth: u8)
    requires
        0 <= i <= j < ms.len(),
        depth >= 1,
        spec_legal(nv, ms[j]),
    ensures
        best_from(nv, ms, i, depth) >= -spec_negamax(
            spec_make_move(nv, ms[j]).0,
            (depth - 1) as u8,
        ),
    decreases j - i,
{
    if i < j {
        lemma_best_from_bound(nv, ms, i + 1, j, depth);
    }
}

/// Searched values never leave the closed interval between the two
/// checkmate scores.
pub proof fn lemma_negamax_bounds(v: BoardV, depth: u8)
    ensures
        -10000000 <= spec_negamax(v, depth) <= 10000000,
    decreases depth, 1int, 0int,
{
    if depth == 0 {
        crate::evaluate::lemma_spec_eval_bounds(v.bbs, v.to_move);
    } else if position_has_no_legal_move(v) {
    } else {
        let nv = core_of(v);
        let ms = spec_gen_moves(v);
        assert(exists|j: int| 0 <= j < ms.len() && #[trigger] spec_legal(nv, ms[j]));
        lemma_best_from_bounds(nv, ms, 0, depth);
    }
}

proof fn lemma_best_from_bounds(nv: BoardV, ms: Seq<Move>, i: int, depth: u8)
    requires
        depth >= 1,
        i >= 0,
    ensures
        best_from(nv, ms, i, depth) <= 10000000,
        (exists|j: int| i <= j < ms.len() && #[trigger] spec_legal(nv, ms[j])) ==> best_from(
            nv,
            ms,
            i,
            depth,
        ) >= -10000000,
    decreases depth, 0int, ms.len() - i,
{
    if 0 <= i < ms.len() {
        lemma_best_from_bounds(nv, ms, i + 1, depth);
        let rest = best_from(nv, ms, i + 1, depth);
        if spec_legal(nv, ms[i]) {
            lemma_negamax_bounds(spec_make_move(nv, ms[i]).0, (depth - 1) as u8);
            let mine = -spec_negamax(spec_make_move(nv, ms[i]).0, (depth - 1) as u8);
            assert(-10000000 <= mine <= 10000000);
            assert(best_from(nv, ms, i, depth) >= mine);
        } else {
            if exists|j: int| i <= j < ms.len() && #[trigger] spec_legal(nv, ms[j]) {
                let j = choose|j: int| i <= j < ms.len() && #[trigger] spec_legal(nv, ms[j]);
                assert(j != i);
                assert(exists|k: int| i + 1 <= k < ms.len() && #[trigger] spec_legal(nv, ms[k]));
                assert(best_from(nv, ms, i, depth) == rest);
            }
        }
    }
}

/// Once the running best has reached the top score, no later move is
/// picked over it.
proof fn lemma_root_pick_saturated(
    nv: BoardV,
    ms: Seq<Move>,
    i: int,
    depth: u8,
    best: int,
    chosen: Move,
)
    requires
        depth >= 1,
        best >= 10000000,
    ensures
        root_pick(nv, ms, i, depth, best, chosen) == chosen,
    decreases ms.len() - i,
{
    if 0 <= i < ms.len() {
        if spec_legal(nv, ms[i]) {
            lemma_negamax_bounds(spec_make_move(nv, ms[i]).0, (depth - 1) as u8);
        }
        lemma_root_pick_saturated(nv, ms, i + 1, depth, best, chosen);
    }
}

/// The searched value depends only on the position fields.
proof fn lemma_negamax_core(v1: BoardV, v2: BoardV, depth: u8)
    requires
        v1.bbs == v2.bbs,
        v1.to_move == v2.to_move,
        v1.castling_rights == v2.castling_rights,
        v1.en_passant == v2.en_passant,
        v1.in_check == v2.in_check,
    ensures
        spec_negamax(v1, depth) == spec_negamax(v2, depth),
{
    if depth != 0 {
        lemma_gen_moves_core(v1, v2);
        assert(core_of(v1) == core_of(v2));
    }
}

/// Search to the given depth inside the window `[alpha, beta]`, scoring
/// from the perspective of the side to move, skipping siblings once the
/// window closes. The result `r` carries the classic fail-soft guarantee
/// against the true searched value `spec_negamax`: exact strictly inside
/// the window, an upper bound at or below `alpha`, a lower bound at or
/// above `beta` — so pruning never changes the value the caller acts on.
/// At depth zero the position is evaluated; with no legal move it scores
/// as checkmate in check and zero (stalemate) otherwise.
#[verifier::rlimit(100)]
pub fn negamax_driver(board: &mut Board, tables: &MoveTables, alpha: i32, beta: i32, depth: u8) -> (
    r: i32)
    requires
        old(board)@.wf(),
        old(board)@.has_kings(),
        tables.wf(),
        -SCORE_LIMIT <= alpha < beta <= SCORE_LIMIT,
    ensures
        alpha < r < beta ==> r as int == spec_negamax(old(board)@, depth),
        r <= alpha ==> spec_negamax(old(board)@, depth) <= r as int,
        r >= beta ==> spec_negamax(old(board)@, depth) >= r as int,
        alpha == -SCORE_LIMIT && beta == SCORE_LIMIT ==> r as int == spec_negamax(
            old(board)@,
            depth,
        ),
        -SCORE_LIMIT <= r <= SCORE_LIMIT,
        final(board)@.wf(),
        final(board)@.has_kings(),
        final(board)@.bbs == old(board)@.bbs,
        final(board)@.to_move == old(board)@.to_move,
        final(board)@.castling_rights == old(board)@.castling_rights,
        final(board)@.en_passant == old(board)@.en_passant,
        final(board)@.in_check == old(board)@.in_check,
        depth == 0 ==> r as int == spec_eval(old(board)@.bbs, old(board)@.to_move),
        depth > 0 && position_has_no_legal_move(old(board)@) ==> r as int == spec_negamax(
            old(board)@,
            depth,
        ),
        depth > 0 && old(board)@.in_check && position_has_no_legal_move(old(board)@) ==> r
            == CHECKMATE_SCORE,
        depth > 0 && !old(board)@.in_check && position_has_no_legal_move(old(board)@) ==> r == 0,
    decreases depth,
{
    if depth == 0 {
        let side = board.get_to_move();
        return eval(board, side);
    }
    proof {
        lemma_negamax_bounds(old(board)@, depth);
    }
    board.gen_moves(tables);
    let copy = board.snapshot();
    let moves = board.get_move_list().into_vec();
    let ghost v0 = old(board)@;
    let ghost nv = core_of(v0);
    let ghost vgen = board@;
    let ghost alpha0 = alpha;
    let mut alpha = alpha;
    let mut best_score: i32 = i32::MIN;
    let mut legal: usize = 0;
    let mut cut = false;
    let mut idx: usize = 0;
    while idx < moves.len() && !cut
        invariant
            tables.wf(),
            board@ == vgen,
            copy@ == vgen,
            v0 == old(board)@,
            nv == core_of(v0),
            vgen.wf(),
            vgen.has_kings(),
            vgen.bbs == v0.bbs,
            vgen.to_move == v0.to_move,
            vgen.castling_rights == v0.castling_rights,
            vgen.en_passant == v0.en_passant,
            vgen.in_check == v0.in_check,
            vgen.moves == moves@,
            moves@ == spec_gen_moves(v0),
            forall|j: int| 0 <= j < moves@.len() ==> (#[trigger] moves@[j]).wf(),
            idx <= moves@.len(),
            depth >= 1,
            legal <= idx,
            -SCORE_LIMIT <= alpha0 && alpha0 < beta && beta <= SCORE_LIMIT,
            alpha as int == (if best_score as int > alpha0 as int {
                best_score as int
            } else {
                alpha0 as int
            }),
            !cut ==> alpha < beta,
            legal == 0 ==> best_score == i32::MIN && !cut && (forall|j: int|
                0 <= j < idx ==> !spec_legal(nv, #[trigger] moves@[j])),
            legal > 0 ==> -SCORE_LIMIT <= best_score <= SCORE_LIMIT,
            legal > 0 ==> exists|j: int|
                0 <= j < moves@.len() && #[trigger] spec_legal(nv, moves@[j]),
            !cut && legal == 0 ==> best_from(nv, moves@, 0, depth) == best_from(
                nv,
                moves@,
                idx as int,
                depth,
            ),
            !cut && legal > 0 ==> best_from(nv, moves@, 0, depth) <= (if best_score as int
                >= best_from(nv, moves@, idx as int, depth) {
                best_score as int
            } else {
                best_from(nv, moves@, idx as int, depth)
            }),
            legal > 0 ==> (best_score <= alpha0 || best_score as int <= best_from(
                nv,
                moves@,
                0,
                depth,
            )),
            cut ==> legal > 0 && best_score >= beta && best_score as int <= best_from(
                nv,
                moves@,
                0,
                depth,
            ),
        decreases moves@.len() - idx,
    {
        let mv = moves[idx];
        let ghost pre = board@;
        let ghost child_spec = spec_make_move(nv, moves@[idx as int]).0;
        let ghost w = -spec_negamax(child_spec, (depth - 1) as u8);
        proof {
            lemma_legal_core(nv, pre, mv);
            lemma_make_move_core(nv, pre, mv);
        }
        if board.make_move(tables, mv) {
            let child = negamax_driver(board, tables, -beta, -alpha, depth - 1);
            proof {
                lemma_negamax_core(spec_make_move(pre, moves@[idx as int]).0, child_spec, (depth
                    - 1) as u8);
                lemma_best_from_bound(nv, moves@, 0, idx as int, depth);
            }
            let score = -child;
            proof {
                // the fail-soft window facts, seen from this side
                assert(score <= alpha ==> w <= score as int);
                assert(score >= beta ==> w >= score as int);
                assert(alpha < score < beta ==> w == score as int);
            }
            if score > best_score {
                best_score = score;
            }
            legal = legal + 1;
        }
        // take back the move
        *board = copy.snapshot();

        if best_score > alpha {
            alpha = best_score;
        }
        if alpha >= beta {
            cut = true;
        }
        idx = idx + 1;
    }

    // no legal move: checkmate or stalemate
    if legal == 0 {
        proof {
            assert(no_legal_in(nv, spec_gen_moves(v0)));
            assert(position_has_no_legal_move(v0));
        }
        if board.is_in_check() {
            return CHECKMATE_SCORE;
        } else {
            return 0;
        }
    }
    proof {
        assert(!position_has_no_legal_move(v0));
        if !cut {
            assert(best_from(nv, moves@, moves@.len() as int, depth) == i32::MIN as int);
        }
        assert(spec_negamax(v0, depth) == best_from(nv, moves@, 0, depth));
        lemma_negamax_bounds(v0, depth);
    }
    best_score
}

/// Plain negamax to the given depth, without a pruning window: returns
/// exactly the searched value `spec_negamax` of the position. At depth
/// zero that is the evaluation; with no legal move it is the checkmate
/// score in check and zero (stalemate) otherwise.
#[verifier::rlimit(100)]
pub fn negamax_plain_driver(board: &mut Board, tables: &MoveTables, depth: u8) -> (r: i32)
    requires
        old(board)@.wf(),
        old(board)@.has_kings(),
        tables.wf(),
    ensures
        r as int == spec_negamax(old(board)@, depth),
        -SCORE_LIMIT <= r <= SCORE_LIMIT,
        final(board)@.wf(),
        final(board)@.has_kings(),
        final(board)@.bbs == old(board)@.bbs,
        final(board)@.to_move == old(board)@.to_move,
        final(board)@.castling_rights == old(board)@.castling_rights,
        final(board)@.en_passant == old(board)@.en_passant,
        final(board)@.in_check == old(board)@.in_check,
        depth == 0 ==> r as int == spec_eval(old(board)@.bbs, old(board)@.to_move),
        depth > 0 && old(board)@.in_check && position_has_no_legal_move(old(board)@) ==> r
            == CHECKMATE_SCORE,
        depth > 0 && !old(board)@.in_check && position_has_no_legal_move(old(board)@) ==> r == 0,
    decreases depth,
{
    if depth == 0 {
        let side = board.get_to_move();
        return eval(board, side);
    }
    board.gen_moves(tables);
    let copy = board.snapshot();
    let moves = board.get_move_list().into_vec();
    let ghost v0 = old(board)@;
    let ghost nv = core_of(v0);
    let ghost vgen = board@;
    let mut best_score: i32 = i32::MIN;
    let mut legal: usize = 0;
    let mut idx: usize = 0;
    while idx < moves.len()
        invariant
            tables.wf(),
            board@ == vgen,
            copy@ == vgen,
            v0 == old(board)@,
            nv == core_of(v0),
            vgen.wf(),
            vgen.has_kings(),
            vgen.bbs == v0.bbs,
            vgen.to_move == v0.to_move,
            vgen.castling_rights == v0.castling_rights,
            vgen.en_passant == v0.en_passant,
            vgen.in_check == v0.in_check,
            vgen.moves == moves@,
            moves@ == spec_gen_moves(v0),
            forall|j: int| 0 <= j < moves@.len() ==> (#[trigger] moves@[j]).wf(),
            idx <= moves@.len(),
            depth >= 1,
            legal <= idx,
            legal == 0 ==> best_score == i32::MIN && (forall|j: int|
                0 <= j < idx ==> !spec_legal(nv, #[trigger] moves@[j])),
            legal > 0 ==> -SCORE_LIMIT <= best_score <= SCORE_LIMIT,
            legal > 0 ==> exists|j: int|
                0 <= j < moves@.len() && #[trigger] spec_legal(nv, moves@[j]),
            best_from(nv, moves@, 0, depth) == (if legal == 0 {
                best_from(nv, moves@, idx as int, depth)
            } else if best_score as int >= best_from(nv, moves@, idx as int, depth) {
                best_score as int
            } else {
                best_from(nv, moves@, idx as int, depth)
            }),
        decreases moves@.len() - idx,
    {
        let mv = moves[idx];
        let ghost pre = board@;
        let ghost child_spec = spec_make_move(nv, moves@[idx as int]).0;
        proof {
            lemma_legal_core(nv, pre, mv);
            lemma_make_move_core(nv, pre, mv);
        }
        if board.make_move(tables, mv) {
            let child = negamax_plain_driver(board, tables, depth - 1);
            proof {
                lemma_negamax_core(spec_make_move(pre, moves@[idx as int]).0, child_spec, (depth
                    - 1) as u8);
            }
            let score = -child;
            if score > best_score {
                best_score = score;
            }
            legal = legal + 1;
        }
        *board = copy.snapshot();
        idx = idx + 1;
    }
    if legal == 0 {
        proof {
            assert(no_legal_in(nv, spec_gen_moves(v0)));
            assert(position_has_no_legal_move(v0));
        }
        if board.is_in_check() {
            return CHECKMATE_SCORE;
        } else {
            return 0;
        }
    }
    proof {
        assert(best_from(nv, moves@, moves@.len() as int, depth) == i32::MIN as int);
        assert(best_score as int == best_from(nv, moves@, 0, depth));
        assert(!position_has_no_legal_move(v0));
    }
    best_score
}

/// Search the root position to the given depth without pruning and
/// return exactly `spec_best_move`: the earliest generated legal move
/// whose negated child value is maximal (ties keep the earliest found),
/// or the null move when the position has no legal move at all.
pub fn negamax_plain(board: &mut Board, tables: &MoveTables, depth: u8) -> (r: Move)
    requires
        old(board)@.wf(),
        old(board)@.has_kings(),
        tables.wf(),
        depth >= 1,
    ensures
        r == spec_best_move(old(board)@, depth),
        r.wf(),
        r@ == 0 || final(board)@.moves.contains(r),
        final(board)@.wf(),
        final(board)@.has_kings(),
        final(board)@.bbs == old(board)@.bbs,
        final(board)@.to_move == old(board)@.to_move,
        final(board)@.castling_rights == old(board)@.castling_rights,
        final(board)@.en_passant == old(board)@.en_passant,
        final(board)@.in_check == old(board)@.in_check,
{
    board.gen_moves(tables);
    let copy = board.snapshot();
    let moves = board.get_move_list().into_vec();
    let ghost v0 = old(board)@;
    let ghost nv = core_of(v0);
    let ghost vgen = board@;
    let mut best_move = Move::none();
    let mut best_score: i32 = i32::MIN;
    let mut idx: usize = 0;
    while idx < moves.len()
        invariant
            tables.wf(),
            board@ == vgen,
            copy@ == vgen,
            v0 == old(board)@,
            nv == core_of(v0),
            vgen.wf(),
            vgen.has_kings(),
            vgen.bbs == v0.bbs,
            vgen.to_move == v0.to_move,
            vgen.castling_rights == v0.castling_rights,
            vgen.en_passant == v0.en_passant,
            vgen.in_check == v0.in_check,
            vgen.moves == moves@,
            moves@ == spec_gen_moves(v0),
            forall|j: int| 0 <= j < moves@.len() ==> (#[trigger] moves@[j]).wf(),
            idx <= moves@.len(),
            depth >= 1,
            best_move@ == 0 || moves@.contains(best_move),
            best_move.wf(),
            root_pick(nv, moves@, idx as int, depth, best_score as int, best_move)
                == spec_best_move(v0, depth),
        decreases moves@.len() - idx,
    {
        let mv = moves[idx];
        let ghost pre = board@;
        let ghost child_spec = spec_make_move(nv, moves@[idx as int]).0;
        proof {
            lemma_legal_core(nv, pre, mv);
            lemma_make_move_core(nv, pre, mv);
        }
        if board.make_move(tables, mv) {
            let child = negamax_plain_driver(board, tables, depth - 1);
            proof {
                lemma_negamax_core(spec_make_move(pre, moves@[idx as int]).0, child_spec, (depth
                    - 1) as u8);
            }
            let score = -child;
            if score > best_score {
                best_score = score;
                best_move = mv;
            }
        }
        *board = copy.snapshot();
        idx = idx + 1;
    }
    best_move
}

/// Search the root position to the given depth with the full alpha-beta
/// window and return exactly `spec_best_move` — the same move the plain
/// search picks: the earliest generated legal move whose negated child
/// value is maximal (ties keep the earliest found), or the null move when
/// the position has no legal move at all. Pruning never changes the
/// chosen move.
#[verifier::rlimit(100)]
pub fn negamax(board: &mut Board, tables: &MoveTables, depth: u8) -> (r: Move)
    requires
        old(board)@.wf(),
        old(board)@.has_kings(),
        tables.wf(),
        depth >= 1,
    ensures
        r == spec_best_move(old(board)@, depth),
        r.wf(),
        r@ == 0 || final(board)@.moves.contains(r),
        final(board)@.wf(),
        final(board)@.has_kings(),
        final(board)@.bbs == old(board)@.bbs,
        final(board)@.to_move == old(board)@.to_move,
        final(board)@.castling_rights == old(board)@.castling_rights,
        final(board)@.en_passant == old(board)@.en_passant,
        final(board)@.in_check == old(board)@.in_check,
{
    board.gen_moves(tables);
    let copy = board.snapshot();
    let moves = board.get_move_list().into_vec();
    let ghost v0 = old(board)@;
    let ghost nv = core_of(v0);
    let ghost vgen = board@;
    let mut best_move = Move::none();
    let mut best_score: i32 = i32::MIN;
    let mut alpha: i32 = -SCORE_LIMIT;
    let beta: i32 = SCORE_LIMIT;
    let mut cut = false;
    let mut idx: usize = 0;
    while idx < moves.len() && !cut
        invariant
            tables.wf(),
            board@ == vgen,
            copy@ == vgen,
            v0 == old(board)@,
            nv == core_of(v0),
            vgen.wf(),
            vgen.has_kings(),
            vgen.bbs == v0.bbs,
            vgen.to_move == v0.to_move,
            vgen.castling_rights == v0.castling_rights,
            vgen.en_passant == v0.en_passant,
            vgen.in_check == v0.in_check,
            vgen.moves == moves@,
            moves@ == spec_gen_moves(v0),
            forall|j: int| 0 <= j < moves@.len() ==> (#[trigger] moves@[j]).wf(),
            idx <= moves@.len(),
            depth >= 1,
            beta == SCORE_LIMIT,
            best_score == i32::MIN || -SCORE_LIMIT <= best_score <= SCORE_LIMIT,
            alpha as int == (if best_score as int > -(SCORE_LIMIT as int) {
                best_score as int
            } else {
                -(SCORE_LIMIT as int)
            }),
            !cut ==> alpha < beta,
            best_move@ == 0 || moves@.contains(best_move),
            best_move.wf(),
            !cut ==> root_pick(nv, moves@, idx as int, depth, best_score as int, best_move)
                == spec_best_move(v0, depth),
            cut ==> best_move == spec_best_move(v0, depth),
        decreases moves@.len() - idx,
    {
        let mv = moves[idx];
        let ghost pre = board@;
        let ghost child_spec = spec_make_move(nv, moves@[idx as int]).0;
        let ghost w = -spec_negamax(child_spec, (depth - 1) as u8);
        proof {
            lemma_legal_core(nv, pre, mv);
            lemma_make_move_core(nv, pre, mv);
            lemma_negamax_bounds(child_spec, (depth - 1) as u8);
        }
        if board.make_move(tables, mv) {
            let child = negamax_driver(board, tables, -beta, -alpha, depth - 1);
            proof {
                lemma_negamax_core(spec_make_move(pre, moves@[idx as int]).0, child_spec, (depth
                    - 1) as u8);
            }
            let score = -child;
            proof {
                // at the full root window every child return is exact:
                // inside the window by the fail-soft guarantee, and at
                // either edge pinched there by the value bounds
                assert(score <= alpha ==> w <= score as int);
                assert(score >= beta ==> w >= score as int);
                assert(alpha < score < beta ==> w == score as int);
                if score > best_score {
                    assert(w == score as int);
                } else {
                    assert(w <= best_score as int);
                }
            }
            if score > best_score {
                best_score = score;
                best_move = mv;
            }
        }
        *board = copy.snapshot();

        if best_score > alpha {
            alpha = best_score;
        }
        if alpha >= beta {
            proof {
                lemma_root_pick_saturated(
                    nv,
                    moves@,
                    idx as int + 1,
                    depth,
                    best_score as int,
                    best_move,
                );
            }
            best_move = mv;
            cut = true;
        }
        idx = idx + 1;
    }
    best_move
}

} // verus!
