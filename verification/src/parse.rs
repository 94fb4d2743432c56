//! Parsing of the text commands the engine is driven by: a move written
//! as two algebraic coordinates plus an optional promotion-piece letter,
//! and a "position" command that loads a start or described position and
//! replays a list of such moves onto it.

use vstd::prelude::*;
use crate::board::Board;
use crate::board::next_token_from;
use crate::board::nth_token;
use crate::move_tables::MoveTables;
use crate::piece::Piece;
use crate::piece_move::Move;
use crate::piece_move::SpecialMove;
use crate::piece_move::move_code;
use crate::piece_move::move_origin;
use crate::piece_move::move_target;
use crate::piece_move::special_of_code;
use crate::square::Square;
use vstd::string::StringSliceAdditionalSpecFns;

verus! {

/// The square index an algebraic file letter and rank digit name, if
/// they are in range.
pub open spec fn spec_alg_square(file: u8, rank: u8) -> Option<u8> {
    if 97 <= file <= 104 && 49 <= rank <= 56 {
        Some(((7 - (rank - 49)) * 8 + (file - 97)) as u8)
    } else {
        None
    }
}

/// The origin, target and promotion letter a move string names: the
/// first four bytes are two squares, the optional fifth byte is the
/// letter (a line feed or nothing counts as a blank).
pub open spec fn spec_move_query(bytes: Seq<u8>, s: int, e: int) -> Option<(u8, u8, u8)> {
    if e - s < 4 {
        None
    } else {
        match (spec_alg_square(bytes[s], bytes[s + 1]), spec_alg_square(bytes[s + 2], bytes[s + 3])) {
            (Some(o), Some(t)) => Some(
                (
                    o,
                    t,
                    if e - s >= 5 {
                        if bytes[s + 4] == 10 {
                            32u8
                        } else {
                            bytes[s + 4]
                        }
                    } else {
                        32u8
                    },
                ),
            ),
            _ => None,
        }
    }
}

/// The letter a promotion piece is written as, if it has one.
pub open spec fn promo_letter(p: Piece) -> Option<u8> {
    match p {
        Piece::Queen => Some(113u8),
        Piece::Rook => Some(114u8),
        Piece::Bishop => Some(98u8),
        Piece::Knight => Some(110u8),
        _ => None,
    }
}

/// The move the scan of a move list settles on: the first move with the
/// queried origin and target, taken when its promotion letter matches the
/// query's. A promotion whose letter differs lets the scan go on; any
/// other matching move ends the scan, successfully only when no letter
/// was queried.
pub open spec fn spec_move_scan(ms: Seq<Move>, i: int, o: u8, t: u8, letter: u8) -> Option<Move>
    decreases ms.len() - i,
{
    if i < 0 || i >= ms.len() {
        None
    } else {
        let m = ms[i];
        if !(move_origin(m@) == o && move_target(m@) == t) {
            spec_move_scan(ms, i + 1, o, t, letter)
        } else {
            match special_of_code(move_code(m@)) {
                SpecialMove::Promotion(p) => if promo_letter(p) == Some(letter) {
                    Some(m)
                } else {
                    spec_move_scan(ms, i + 1, o, t, letter)
                },
                SpecialMove::PromotionCapture(p) => if promo_letter(p) == Some(letter) {
                    Some(m)
                } else {
                    spec_move_scan(ms, i + 1, o, t, letter)
                },
                _ => if letter == 32 {
                    Some(m)
                } else {
                    None
                },
            }
        }
    }
}

/// What looking a move string up in a move list returns: nothing for a
/// malformed string, else the scan's result.
pub open spec fn spec_parse_move(ms: Seq<Move>, bytes: Seq<u8>, s: int, e: int) -> Option<Move> {
    match spec_move_query(bytes, s, e) {
        None => None,
        Some(q) => spec_move_scan(ms, 0, q.0, q.1, q.2),
    }
}

/// Whether the bytes `s..e` spell the same word as `word`.
fn token_eq(bytes: &[u8], s: usize, e: usize, word: &[u8]) -> (r: bool)
    requires
        s <= e <= bytes@.len(),
{
    if e - s != word.len() {
        return false;
    }
    let mut i: usize = 0;
    while i < word.len()
        invariant
            i <= word@.len(),
            s + word@.len() == e <= bytes@.len(),
        decreases word@.len() - i,
    {
        if bytes[s + i] != word[i] {
            return false;
        }
        i = i + 1;
    }
    true
}

/// The square an algebraic file letter and rank digit name, if they do.
fn square_from_alg_bytes(file: u8, rank: u8) -> (r: Option<Square>)
    ensures
        r matches Some(sq) ==> sq@ < 64 && spec_alg_square(file, rank) == Some(sq@),
        r is Some <==> (97 <= file <= 104 && 49 <= rank <= 56),
{
    if 97 <= file && file <= 104 && 49 <= rank && rank <= 56 {
        Some(Square::new((7 - (rank - 49)) * 8 + (file - 97)))
    } else {
        None
    }
}

#[verifier::loop_isolation(false)]
fn parse_move_bytes(
    board: &mut Board,
    tables: &MoveTables,
    bytes: &[u8],
    s: usize,
    e: usize,
) -> (r: Option<Move>)
    requires
        old(board)@.wf(),
        old(board)@.has_kings(),
        tables.wf(),
        s <= e <= bytes@.len(),
    ensures
        final(board)@.wf(),
        final(board)@.has_kings(),
        final(board)@.bbs == old(board)@.bbs,
        final(board)@.to_move == old(board)@.to_move,
        final(board)@.castling_rights == old(board)@.castling_rights,
        final(board)@.en_passant == old(board)@.en_passant,
        final(board)@.in_check == old(board)@.in_check,
        r == spec_parse_move(final(board)@.moves, bytes@, s as int, e as int),
        r matches Some(m) ==> m.wf() && final(board)@.moves.contains(m),
{
    board.gen_moves(tables);
    if e - s < 4 {
        return None;
    }
    let origin = match square_from_alg_bytes(bytes[s], bytes[s + 1]) {
        Some(sq) => sq,
        None => {
            return None;
        },
    };
    let target = match square_from_alg_bytes(bytes[s + 2], bytes[s + 3]) {
        Some(sq) => sq,
        None => {
            return None;
        },
    };
    // an optional promotion letter; a line feed counts as absent
    let promoted: u8 = if e - s >= 5 {
        if bytes[s + 4] == 10 {
            32
        } else {
            bytes[s + 4]
        }
    } else {
        32
    };

    let moves = board.get_move_list().into_vec();
    let mut i: usize = 0;
    while i < moves.len()
        invariant
            i <= moves@.len(),
            moves@ == board@.moves,
            spec_move_scan(moves@, 0, origin@, target@, promoted) == spec_move_scan(
                moves@,
                i as int,
                origin@,
                target@,
                promoted,
            ),
            board@.wf(),
            board@.has_kings(),
            board@.bbs == old(board)@.bbs,
            board@.to_move == old(board)@.to_move,
            board@.castling_rights == old(board)@.castling_rights,
            board@.en_passant == old(board)@.en_passant,
            board@.in_check == old(board)@.in_check,
            forall|j: int|
                0 <= j < moves@.len() ==> crate::movegen::move_plausible(
                    old(board)@,
                    #[trigger] moves@[j],
                ),
        decreases moves@.len() - i,
    {
        let mv = moves[i];
        let keep = mv.get_origin().to_int() == origin.to_int() && mv.get_target().to_int()
            == target.to_int();
        if keep {
            match mv.get_special() {
                SpecialMove::Promotion(p) => {
                    match p {
                        Piece::Queen => if promoted == 113 {
                            proof {
                                assert(board@.moves[i as int] == mv);
                            }
                            return Some(mv);
                        },
                        Piece::Rook => if promoted == 114 {
                            proof {
                                assert(board@.moves[i as int] == mv);
                            }
                            return Some(mv);
                        },
                        Piece::Bishop => if promoted == 98 {
                            proof {
                                assert(board@.moves[i as int] == mv);
                            }
                            return Some(mv);
                        },
                        Piece::Knight => if promoted == 110 {
                            proof {
                                assert(board@.moves[i as int] == mv);
                            }
                            return Some(mv);
                        },
                        _ => {},
                    }
                },
                SpecialMove::PromotionCapture(p) => {
                    match p {
                        Piece::Queen => if promoted == 113 {
                            proof {
                                assert(board@.moves[i as int] == mv);
                            }
                            return Some(mv);
                        },
                        Piece::Rook => if promoted == 114 {
                            proof {
                                assert(board@.moves[i as int] == mv);
                            }
                            return Some(mv);
                        },
                        Piece::Bishop => if promoted == 98 {
                            proof {
                                assert(board@.moves[i as int] == mv);
                            }
                            return Some(mv);
                        },
                        Piece::Knight => if promoted == 110 {
                            proof {
                                assert(board@.moves[i as int] == mv);
                            }
                            return Some(mv);
                        },
                        _ => {},
                    }
                },
                _ => {
                    if promoted == 32 {
                        proof {
                            assert(board@.moves[i as int] == mv);
                        }
                        return Some(mv);
                    } else {
                        return None;
                    }
                },
            }
        }
        i = i + 1;
    }
    None
}

/// Look an algebraic move string up in the board's own pseudo-legal move
/// list: exactly the move `spec_parse_move` picks — the first generated
/// move with the string's origin and target, and with the matching
/// promotion letter where the move is a promotion. The board's move list
/// is regenerated as a side effect.
pub fn parse_move(board: &mut Board, tables: &MoveTables, input: &str) -> (r: Option<Move>)
    requires
        old(board)@.wf(),
        old(board)@.has_kings(),
        tables.wf(),
    ensures
        final(board)@.wf(),
        final(board)@.has_kings(),
        final(board)@.bbs == old(board)@.bbs,
        final(board)@.to_move == old(board)@.to_move,
        final(board)@.castling_rights == old(board)@.castling_rights,
        final(board)@.en_passant == old(board)@.en_passant,
        final(board)@.in_check == old(board)@.in_check,
        r == spec_parse_move(
            final(board)@.moves,
            input.spec_bytes(),
            0,
            input.spec_bytes().len() as int,
        ),
        r matches Some(m) ==> m.wf() && final(board)@.moves.contains(m),
{
    let bytes = input.as_bytes();
    parse_move_bytes(board, tables, bytes, 0, bytes.len())
}

/// Load a "position" command: `position startpos` or `position fen`
/// followed by the six position fields, then optionally `moves` and a
/// list of algebraic moves replayed in order. Returns `None` when any
/// part fails to parse.
pub fn parse_position(tables: &MoveTables, input: &str) -> (r: Option<Board>)
    requires
        tables.wf(),
    ensures
        r matches Some(b) ==> b@.wf(),
{
    let bytes = input.as_bytes();
    let (s0, e0) = match nth_token(bytes, 0) {
        Some(t) => t,
        None => {
            return None;
        },
    };
    if !token_eq(bytes, s0, e0, "position".as_bytes()) {
        return None;
    }
    let (s1, e1) = match nth_token(bytes, 1) {
        Some(t) => t,
        None => {
            return None;
        },
    };
    let mut board: Board;
    let next_tok: usize;
    if token_eq(bytes, s1, e1, "startpos".as_bytes()) {
        board = Board::start();
        next_tok = 2;
    } else if token_eq(bytes, s1, e1, "fen".as_bytes()) {
        let (fs, _fe) = match nth_token(bytes, 2) {
            Some(t) => t,
            None => {
                return None;
            },
        };
        let (_ls, le) = match nth_token(bytes, 7) {
            Some(t) => t,
            None => {
                return None;
            },
        };
        if fs >= le {
            return None;
        }
        let mut fen_bytes: Vec<u8> = Vec::new();
        let mut k = fs;
        while k < le
            invariant
                fs <= k <= le <= bytes@.len(),
            decreases le - k,
        {
            fen_bytes.push(bytes[k]);
            k = k + 1;
        }
        board = match Board::new_from_bytes(fen_bytes.as_slice()) {
            Ok(b) => b,
            Err(_) => {
                return None;
            },
        };
        next_tok = 8;
    } else {
        return None;
    }

    // an optional list of moves to replay
    let (sm, em) = match nth_token(bytes, next_tok) {
        Some(t) => t,
        None => {
            return Some(board);
        },
    };
    if !token_eq(bytes, sm, em, "moves".as_bytes()) {
        return None;
    }
    let mut pos = em;
    while pos < bytes.len()
        invariant
            tables.wf(),
            pos <= bytes@.len(),
            board@.wf(),
        decreases bytes@.len() - pos,
    {
        let (ms, me) = match next_token_from(bytes, pos) {
            Some(t) => t,
            None => {
                return Some(board);
            },
        };
        // a replayed move needs both kings still on the board
        if board.get_bitboard(0).is_empty() || board.get_bitboard(6).is_empty() {
            return None;
        }
        let mv = match parse_move_bytes(&mut board, tables, bytes, ms, me) {
            Some(m) => m,
            None => {
                return None;
            },
        };
        board.make_move(tables, mv);
        pos = me;
    }
    Some(board)
}

} // verus!
