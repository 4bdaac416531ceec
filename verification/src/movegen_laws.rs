use vstd::prelude::*;

use crate::bitboard::{
    bit, group_bit_lemmas, lemma_squares_from_agree, lemma_squares_from_members, squares_from,
    squares_of,
};
use crate::board::Board;
use crate::movegen::{
    attack_set, capture_moves, direct_check_squares, from_moves, king_moves, king_set, piece_moves,
    pseudo_moves, quiet_check_moves,
};
use crate::attacks::{bishop_reach, rook_reach};
use crate::types::{encode_move, Color, Move, BB_RANK_1, BB_RANK_8, NO_SQUARE};

verus! {

broadcast use group_bit_lemmas;

/// Everything `a` holds, `b` holds.
pub open spec fn within(a: Seq<Move>, b: Seq<Move>) -> bool {
    forall|m: Move| #[trigger] a.contains(m) ==> b.contains(m)
}

/// A joined sequence holds what either part holds.
proof fn lemma_concat_contains(a: Seq<Move>, b: Seq<Move>, m: Move)
    ensures
        (a + b).contains(m) <==> (a.contains(m) || b.contains(m)),
{
    if (a + b).contains(m) {
        let i = choose|i: int| 0 <= i < (a + b).len() && (a + b)[i] == m;
        if i < a.len() {
            assert(a[i] == m);
        } else {
            assert(b[i - a.len()] == m);
        }
    }
    if a.contains(m) {
        let i = choose|i: int| 0 <= i < a.len() && a[i] == m;
        assert((a + b)[i] == m);
    }
    if b.contains(m) {
        let i = choose|i: int| 0 <= i < b.len() && b[i] == m;
        assert((a + b)[a.len() + i] == m);
    }
}

proof fn lemma_within_parts(a: Seq<Move>, c: Seq<Move>)
    ensures
        within(a, a + c),
        within(c, a + c),
{
    assert forall|m: Move| #[trigger] a.contains(m) implies (a + c).contains(m) by {
        lemma_concat_contains(a, c, m);
    }
    assert forall|m: Move| #[trigger] c.contains(m) implies (a + c).contains(m) by {
        lemma_concat_contains(a, c, m);
    }
}

proof fn lemma_within_join(a1: Seq<Move>, a2: Seq<Move>, b: Seq<Move>)
    requires
        within(a1, b),
        within(a2, b),
    ensures
        within(a1 + a2, b),
{
    assert forall|m: Move| #[trigger] (a1 + a2).contains(m) implies b.contains(m) by {
        lemma_concat_contains(a1, a2, m);
    }
}

/// Each of six joined parts is within the whole.
proof fn lemma_within_of_six(y1: Seq<Move>, y2: Seq<Move>, y3: Seq<Move>, y4: Seq<Move>, y5: Seq<Move>, y6: Seq<Move>)
    ensures
        within(y1, y1 + y2 + y3 + y4 + y5 + y6),
        within(y2, y1 + y2 + y3 + y4 + y5 + y6),
        within(y3, y1 + y2 + y3 + y4 + y5 + y6),
        within(y4, y1 + y2 + y3 + y4 + y5 + y6),
        within(y5, y1 + y2 + y3 + y4 + y5 + y6),
        within(y6, y1 + y2 + y3 + y4 + y5 + y6),
{
    lemma_within_parts(y1, y2);
    lemma_within_parts(y1 + y2, y3);
    lemma_within_parts(y1 + y2 + y3, y4);
    lemma_within_parts(y1 + y2 + y3 + y4, y5);
    lemma_within_parts(y1 + y2 + y3 + y4 + y5, y6);
}

/// Six joined parts, each within `b`, are within `b`.
proof fn lemma_join_six(x1: Seq<Move>, x2: Seq<Move>, x3: Seq<Move>, x4: Seq<Move>, x5: Seq<Move>, x6: Seq<Move>, b: Seq<Move>)
    requires
        within(x1, b),
        within(x2, b),
        within(x3, b),
        within(x4, b),
        within(x5, b),
        within(x6, b),
    ensures
        within(x1 + x2 + x3 + x4 + x5 + x6, b),
{
    lemma_within_join(x1, x2, b);
    lemma_within_join(x1 + x2, x3, b);
    lemma_within_join(x1 + x2 + x3, x4, b);
    lemma_within_join(x1 + x2 + x3 + x4, x5, b);
    lemma_within_join(x1 + x2 + x3 + x4 + x5, x6, b);
}

/// Every square of a bitboard at or above `i` is among its squares from `i`.
proof fn lemma_squares_from_has(y: u64, i: int, k: int)
    requires
        0 <= i <= k < 64,
        bit(y, k),
    ensures
        squares_from(y, i).contains(k),
    decreases k - i,
{
    if i == k {
        assert(squares_from(y, i)[0] == k);
    } else {
        lemma_squares_from_has(y, i + 1, k);
        if bit(y, i) {
            let t = squares_from(y, i + 1);
            let j = choose|j: int| 0 <= j < t.len() && t[j] == k;
            assert(squares_from(y, i)[j + 1] == k);
        }
    }
}

/// A move of `from_moves` goes to one of the targets.
proof fn lemma_from_moves_member(f: int, tos: Seq<int>, m: Move) -> (t: int)
    requires
        from_moves(f, tos).contains(m),
    ensures
        tos.contains(t),
        m == encode_move(f, t, 0, 0),
    decreases tos.len(),
{
    lemma_concat_contains(seq![encode_move(f, tos[0], 0, 0)], from_moves(f, tos.drop_first()), m);
    if m == encode_move(f, tos[0], 0, 0) {
        assert(tos[0] == tos[0]);
        tos[0]
    } else {
        let t = lemma_from_moves_member(f, tos.drop_first(), m);
        let j = choose|j: int| 0 <= j < tos.drop_first().len() && tos.drop_first()[j] == t;
        assert(tos[j + 1] == t);
        t
    }
}

/// `from_moves` has the move to each of the targets.
proof fn lemma_from_moves_has(f: int, tos: Seq<int>, t: int)
    requires
        tos.contains(t),
    ensures
        from_moves(f, tos).contains(encode_move(f, t, 0, 0)),
    decreases tos.len(),
{
    let m = encode_move(f, t, 0, 0);
    lemma_concat_contains(seq![encode_move(f, tos[0], 0, 0)], from_moves(f, tos.drop_first()), m);
    if tos[0] == t {
        assert(seq![encode_move(f, tos[0], 0, 0)][0] == m);
    } else {
        let j = choose|j: int| 0 <= j < tos.len() && tos[j] == t;
        assert(tos.drop_first()[j - 1] == t);
        lemma_from_moves_has(f, tos.drop_first(), t);
    }
}

/// The moves of `from_moves` to the squares of a bitboard are moves to the squares
/// of any bitboard that holds all its bits.
proof fn lemma_from_moves_within(f: int, x: u64, y: u64)
    requires
        forall|j: int| bit(x, j) ==> bit(y, j),
    ensures
        within(from_moves(f, squares_of(x)), from_moves(f, squares_of(y))),
{
    assert forall|m: Move| #[trigger] from_moves(f, squares_of(x)).contains(m) implies from_moves(
        f,
        squares_of(y),
    ).contains(m) by {
        let t = lemma_from_moves_member(f, squares_of(x), m);
        lemma_squares_from_members(x, 0);
        let j = choose|j: int| 0 <= j < squares_of(x).len() && squares_of(x)[j] == t;
        assert(bit(x, squares_from(x, 0)[j]));
        lemma_squares_from_has(y, 0, t);
        lemma_from_moves_has(f, squares_of(y), t);
    }
}

/// The piece moves onto a mask are piece moves onto any mask that holds it.
proof fn lemma_piece_moves_within(froms: Seq<int>, kind: int, occ: u64, m1: u64, m2: u64)
    requires
        forall|j: int| bit(m1, j) ==> bit(m2, j),
    ensures
        within(piece_moves(froms, kind, occ, m1), piece_moves(froms, kind, occ, m2)),
    decreases froms.len(),
{
    if froms.len() > 0 {
        let a1 = attack_set(kind, froms[0], occ);
        let h1 = from_moves(froms[0], squares_of(a1 & m1));
        let h2 = from_moves(froms[0], squares_of(a1 & m2));
        let t1 = piece_moves(froms.drop_first(), kind, occ, m1);
        let t2 = piece_moves(froms.drop_first(), kind, occ, m2);
        assert forall|j: int| bit(a1 & m1, j) implies bit(a1 & m2, j) by {}
        lemma_from_moves_within(froms[0], a1 & m1, a1 & m2);
        lemma_piece_moves_within(froms.drop_first(), kind, occ, m1, m2);
        lemma_within_parts(h2, t2);
        lemma_within_join(h1, t1, h2 + t2);
    }
}

/// The pawn captures and promotions, in their order, are parts of the pawn moves.
proof fn lemma_pawn_parts_within(
    x1: Seq<Move>,
    x2: Seq<Move>,
    x3: Seq<Move>,
    x4: Seq<Move>,
    x5: Seq<Move>,
    x6: Seq<Move>,
    y1: Seq<Move>,
    y2: Seq<Move>,
    y3: Seq<Move>,
    y4: Seq<Move>,
    y5: Seq<Move>,
    y6: Seq<Move>,
    y7: Seq<Move>,
    y8: Seq<Move>,
)
    requires
        y2 == x1,
        y6 == x2,
        y7 == x3,
        y4 == x4,
        y5 == x5,
        y8 == x6,
    ensures
        within(x1 + x2 + x3 + x4 + x5 + x6, y1 + y2 + y3 + y4 + y5 + y6 + y7 + y8),
{
    let whole = y1 + y2 + y3 + y4 + y5 + y6 + y7 + y8;
    lemma_within_of_six(y1 + y2 + y3, y4, y5, y6, y7, y8);
    lemma_within_parts(y1 + y2, y3);
    lemma_within_parts(y1, y2);
    lemma_join_six(x1, x2, x3, x4, x5, x6, whole);
}

proof fn lemma_within_empty(b: Seq<Move>)
    ensures
        within(Seq::<Move>::empty(), b),
{
}

/// Every capture or promotion the generator produces is among the pseudo-legal
/// moves it produces.
pub proof fn law_captures_are_moves(b: Board)
    requires
        b.consistent(),
    ensures
        within(capture_moves(b), pseudo_moves(b)),
{
    let ui = b.side.idx();
    let occ = b.occ_all;
    let our = b.occ[ui];
    let their = b.occ[1 - ui];
    let p = b.pieces[ui][0];
    assert forall|j: int| bit(their, j) implies bit(!our, j) by {
        assert(bit(b.occ[1 - ui], j));
        if bit(b.occ[ui], j) {
            assert(false);
        }
    }
    // The pawns: the push promotions are the promotions of the single pushes.
    let pc = if b.side == Color::White {
        crate::movegen::white_pawn_captures(p, their, b.ep_sq, occ)
    } else {
        crate::movegen::black_pawn_captures(p, their, b.ep_sq, occ)
    };
    let pm = if b.side == Color::White {
        crate::movegen::white_pawn_moves(p, their, b.ep_sq, occ)
    } else {
        crate::movegen::black_pawn_moves(p, their, b.ep_sq, occ)
    };
    if b.side == Color::White {
        let x = (p << 8u64) & BB_RANK_8 & !occ;
        let single = (p << 8u64) & !occ;
        let y = single & BB_RANK_8;
        lemma_squares_from_agree(x, y, 0);
        let cap_left = (p << 9u64) & !crate::types::BB_FILE_A & their;
        let cap_right = (p << 7u64) & !crate::types::BB_FILE_H & their;
        lemma_pawn_parts_within(
            crate::movegen::promos_by(squares_of(x), -8),
            crate::movegen::promos_by(squares_of(cap_left & BB_RANK_8), -9),
            crate::movegen::promos_by(squares_of(cap_right & BB_RANK_8), -7),
            crate::movegen::pawn_moves_by(squares_of(cap_left & !BB_RANK_8), -9),
            crate::movegen::pawn_moves_by(squares_of(cap_right & !BB_RANK_8), -7),
            crate::movegen::white_ep_moves(p, b.ep_sq),
            crate::movegen::pawn_moves_by(squares_of(single & !BB_RANK_8), -8),
            crate::movegen::promos_by(squares_of(y), -8),
            crate::movegen::pawn_moves_by(squares_of(((single & crate::types::BB_RANK_3) << 8u64) & !occ), -16),
            crate::movegen::pawn_moves_by(squares_of(cap_left & !BB_RANK_8), -9),
            crate::movegen::pawn_moves_by(squares_of(cap_right & !BB_RANK_8), -7),
            crate::movegen::promos_by(squares_of(cap_left & BB_RANK_8), -9),
            crate::movegen::promos_by(squares_of(cap_right & BB_RANK_8), -7),
            crate::movegen::white_ep_moves(p, b.ep_sq),
        );
    } else {
        let x = (p >> 8u64) & BB_RANK_1 & !occ;
        let single = (p >> 8u64) & !occ;
        let y = single & BB_RANK_1;
        lemma_squares_from_agree(x, y, 0);
        let cap_left = (p >> 7u64) & !crate::types::BB_FILE_A & their;
        let cap_right = (p >> 9u64) & !crate::types::BB_FILE_H & their;
        lemma_pawn_parts_within(
            crate::movegen::promos_by(squares_of(x), 8),
            crate::movegen::promos_by(squares_of(cap_left & BB_RANK_1), 7),
            crate::movegen::promos_by(squares_of(cap_right & BB_RANK_1), 9),
            crate::movegen::pawn_moves_by(squares_of(cap_left & !BB_RANK_1), 7),
            crate::movegen::pawn_moves_by(squares_of(cap_right & !BB_RANK_1), 9),
            crate::movegen::black_ep_moves(p, b.ep_sq),
            crate::movegen::pawn_moves_by(squares_of(single & !BB_RANK_1), 8),
            crate::movegen::promos_by(squares_of(y), 8),
            crate::movegen::pawn_moves_by(squares_of(((single & crate::types::BB_RANK_6) >> 8u64) & !occ), 16),
            crate::movegen::pawn_moves_by(squares_of(cap_left & !BB_RANK_1), 7),
            crate::movegen::pawn_moves_by(squares_of(cap_right & !BB_RANK_1), 9),
            crate::movegen::promos_by(squares_of(cap_left & BB_RANK_1), 7),
            crate::movegen::promos_by(squares_of(cap_right & BB_RANK_1), 9),
            crate::movegen::black_ep_moves(p, b.ep_sq),
        );
    }
    assert(within(pc, pm));
    // The pieces: their squares are squares that are not ours.
    lemma_piece_moves_within(squares_of(b.pieces[ui][1]), 1, occ, their, !our);
    lemma_piece_moves_within(squares_of(b.pieces[ui][2]), 2, occ, their, !our);
    lemma_piece_moves_within(squares_of(b.pieces[ui][3]), 3, occ, their, !our);
    lemma_piece_moves_within(squares_of(b.pieces[ui][4]), 4, occ, their, !our);
    // The king.
    let kc = king_moves(b, their, false);
    let km = king_moves(b, !our, true);
    let k = b.king_sq[ui];
    if k != NO_SQUARE {
        let ks = king_set(k as int);
        assert forall|j: int| bit(ks & their, j) implies bit(ks & !our, j) by {}
        lemma_from_moves_within(k as int, ks & their, ks & !our);
        let h1 = from_moves(k as int, squares_of(ks & their));
        let h2 = from_moves(k as int, squares_of(ks & !our));
        lemma_within_parts(h2, crate::movegen::castling_moves(b, k as int, b.side, b.occ_all));
        lemma_within_empty(km);
        lemma_within_join(h1, Seq::<Move>::empty(), km);
    } else {
        lemma_within_empty(km);
    }
    assert(within(kc, km));
    let n1 = piece_moves(squares_of(b.pieces[ui][1]), 1, occ, !our);
    let n2 = piece_moves(squares_of(b.pieces[ui][2]), 2, occ, !our);
    let n3 = piece_moves(squares_of(b.pieces[ui][3]), 3, occ, !our);
    let n4 = piece_moves(squares_of(b.pieces[ui][4]), 4, occ, !our);
    lemma_within_of_six(pm, n1, n2, n3, n4, km);
    lemma_join_six(
        pc,
        piece_moves(squares_of(b.pieces[ui][1]), 1, occ, their),
        piece_moves(squares_of(b.pieces[ui][2]), 2, occ, their),
        piece_moves(squares_of(b.pieces[ui][3]), 3, occ, their),
        piece_moves(squares_of(b.pieces[ui][4]), 4, occ, their),
        kc,
        pseudo_moves(b),
    );
}

/// The moves of the pieces on `froms` include the move of each of them to each of
/// its squares.
proof fn lemma_piece_moves_has(froms: Seq<int>, kind: int, occ: u64, mask: u64, f: int, t: int)
    requires
        froms.contains(f),
        squares_of(attack_set(kind, f, occ) & mask).contains(t),
    ensures
        piece_moves(froms, kind, occ, mask).contains(encode_move(f, t, 0, 0)),
    decreases froms.len(),
{
    let m = encode_move(f, t, 0, 0);
    let h = from_moves(froms[0], squares_of(attack_set(kind, froms[0], occ) & mask));
    let rest = piece_moves(froms.drop_first(), kind, occ, mask);
    lemma_concat_contains(h, rest, m);
    if froms[0] == f {
        lemma_from_moves_has(f, squares_of(attack_set(kind, f, occ) & mask), t);
    } else {
        let j = choose|j: int| 0 <= j < froms.len() && froms[j] == f;
        assert(froms.drop_first()[j - 1] == f);
        lemma_piece_moves_has(froms.drop_first(), kind, occ, mask, f, t);
    }
}

/// Every quiet move of a knight, bishop, rook or queen that gives check is a quiet
/// check: when such a piece of the side to move on `q` reaches the empty square `t`,
/// and from `t` a piece of its kind would attack the enemy king, the quiet checks
/// hold the move from `q` to `t`.
pub proof fn law_direct_checks_are_quiet_checks(b: Board, kind: int, q: int, t: int)
    requires
        b.consistent(),
        b.king_sq[b.side.opposite().idx()] < 64,
        1 <= kind <= 4,
        0 <= q < 64,
        0 <= t < 64,
        b.sq_piece[q] == b.side.idx() * 6 + kind,
        b.sq_piece[t] == crate::types::PIECE_NONE,
        bit(attack_set(kind, q, b.occ_all), t),
        bit(attack_set(kind, b.king_sq[b.side.opposite().idx()] as int, b.occ_all), t),
    ensures
        quiet_check_moves(b).contains(encode_move(q, t, 0, 0)),
{
    let ui = b.side.idx();
    let occ = b.occ_all;
    let ps = b.pieces[ui][kind];
    assert(bit(ps, q));
    lemma_squares_from_members(ps, 0);
    let mask = direct_check_squares(b, kind);
    let x = attack_set(kind, q, occ) & mask;
    assert(!bit(occ, t));
    assert(bit(x, t));
    lemma_squares_from_members(x, 0);
    lemma_piece_moves_has(squares_of(ps), kind, occ, mask, q, t);
    let m = encode_move(q, t, 0, 0);
    let p1 = piece_moves(squares_of(b.pieces[ui][1]), 1, occ, direct_check_squares(b, 1));
    let p2 = piece_moves(squares_of(b.pieces[ui][2]), 2, occ, direct_check_squares(b, 2));
    let p3 = piece_moves(squares_of(b.pieces[ui][3]), 3, occ, direct_check_squares(b, 3));
    let p4 = piece_moves(squares_of(b.pieces[ui][4]), 4, occ, direct_check_squares(b, 4));
    let p5 = pseudo_moves(b).filter(crate::movegen::discovered_pred(b));
    lemma_concat_contains(p1, p2, m);
    lemma_concat_contains(p1 + p2, p3, m);
    lemma_concat_contains(p1 + p2 + p3, p4, m);
    lemma_concat_contains(p1 + p2 + p3 + p4, p5, m);
}

} // verus!
