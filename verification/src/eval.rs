use vstd::prelude::*;

use crate::bitboard::{bb_pop_lsb, bit, group_bit_lemmas, squares_of};
use crate::board::{Board, lemma_and_nonzero, npm_of};
use crate::config::{div_trunc, scale_score_pair, EngineOptions, EvalOptions};
use crate::eval_activity::{king_safety, king_safety_value, mobility_and_activity, mobility_activity_value, side_mobility, side_mobility_value};
use crate::eval_pawns::{pawn_structure, pawn_structure_value};
use crate::magic::AttackTables;
use crate::eval_terms::{king_distance, chebyshev_distance, is_ahead, is_behind_inclusive, ranks_ahead, ranks_behind_inclusive, CONNECTED_PASSER_BONUS, PASSED_PAWN_BONUS_EG, PASSED_PAWN_BONUS_MG, PASSER_ENEMY_KING_DIST_EG, PASSER_KING_PROXIMITY_EG, PASSER_PATH_CLEAR_BONUS, ROOK_BEHIND_PASSER_BONUS, blend, blend_phase, TEMPO_BONUS};
use crate::types::{Color, PieceType, Square, Bb, BB_FILES, NO_SQUARE, file_of, game_phase, material_of, phase_of, piece_type_of_index, rank_of, sq_file, sq_rank};

verus! {

// ---------------------------------------------------------------- piece-square tables

pub const PST_PAWN: [(i32, i32); 64] = [
    (0, 0), (0, 0), (0, 0), (0, 0), (0, 0), (0, 0), (0, 0), (0, 0),
    (0, 0), (0, 0), (0, 0), (0, 0), (0, 0), (0, 0), (0, 0), (0, 0),
    (5, 5), (5, 5), (10, 10), (0, 0), (0, 0), (10, 10), (5, 5), (5, 5),
    (5, 5), (10, 10), (15, 15), (25, 25), (25, 25), (15, 15), (10, 10), (5, 5),
    (10, 10), (15, 15), (20, 20), (30, 30), (30, 30), (20, 20), (15, 15), (10, 10),
    (20, 20), (25, 25), (30, 30), (35, 35), (35, 35), (30, 30), (25, 25), (20, 20),
    (40, 50), (45, 55), (45, 55), (45, 55), (45, 55), (45, 55), (45, 55), (40, 50),
    (0, 0), (0, 0), (0, 0), (0, 0), (0, 0), (0, 0), (0, 0), (0, 0),
];

pub const PST_KNIGHT: [(i32, i32); 64] = [
    (-50, -30), (-40, -20), (-30, -10), (-30, -10), (-30, -10), (-30, -10), (-40, -20), (-50, -30),
    (-40, -20), (-20, -5), (0, 0), (0, 0), (0, 0), (0, 0), (-20, -5), (-40, -20),
    (-30, -10), (0, 0), (10, 5), (15, 10), (15, 10), (10, 5), (0, 0), (-30, -10),
    (-30, -10), (5, 5), (15, 10), (20, 15), (20, 15), (15, 10), (5, 5), (-30, -10),
    (-30, -10), (0, 0), (15, 10), (20, 15), (20, 15), (15, 10), (0, 0), (-30, -10),
    (-30, -10), (5, 5), (10, 5), (15, 10), (15, 10), (10, 5), (5, 5), (-30, -10),
    (-40, -20), (-20, -5), (0, 0), (5, 5), (5, 5), (0, 0), (-20, -5), (-40, -20),
    (-50, -30), (-40, -20), (-30, -10), (-30, -10), (-30, -10), (-30, -10), (-40, -20), (-50, -30),
];

pub const PST_BISHOP: [(i32, i32); 64] = [
    (-20, -10), (-10, -5), (-10, -5), (-10, -5), (-10, -5), (-10, -5), (-10, -5), (-20, -10),
    (-10, -5), (0, 0), (0, 0), (0, 0), (0, 0), (0, 0), (0, 0), (-10, -5),
    (-10, -5), (0, 0), (5, 5), (10, 10), (10, 10), (5, 5), (0, 0), (-10, -5),
    (-10, -5), (5, 5), (5, 5), (10, 10), (10, 10), (5, 5), (5, 5), (-10, -5),
    (-10, -5), (0, 0), (10, 10), (10, 10), (10, 10), (10, 10), (0, 0), (-10, -5),
    (-10, -5), (10, 10), (10, 10), (10, 10), (10, 10), (10, 10), (10, 10), (-10, -5),
    (-10, -5), (5, 0), (0, 0), (0, 0), (0, 0), (0, 0), (5, 0), (-10, -5),
    (-20, -10), (-10, -5), (-10, -5), (-10, -5), (-10, -5), (-10, -5), (-10, -5), (-20, -10),
];

pub const PST_ROOK: [(i32, i32); 64] = [
    (0, 0), (0, 0), (0, 0), (5, 5), (5, 5), (0, 0), (0, 0), (0, 0),
    (-5, 0), (0, 0), (0, 0), (0, 0), (0, 0), (0, 0), (0, 0), (-5, 0),
    (-5, 0), (0, 0), (0, 0), (0, 0), (0, 0), (0, 0), (0, 0), (-5, 0),
    (-5, 0), (0, 0), (0, 0), (0, 0), (0, 0), (0, 0), (0, 0), (-5, 0),
    (-5, 0), (0, 0), (0, 0), (0, 0), (0, 0), (0, 0), (0, 0), (-5, 0),
    (-5, 0), (0, 0), (0, 0), (0, 0), (0, 0), (0, 0), (0, 0), (-5, 0),
    (5, 10), (5, 10), (5, 10), (5, 10), (5, 10), (5, 10), (5, 10), (5, 10),
    (0, 0), (0, 0), (0, 0), (0, 0), (0, 0), (0, 0), (0, 0), (0, 0),
];

pub const PST_QUEEN: [(i32, i32); 64] = [
    (-20, -10), (-10, -5), (-10, -5), (-5, -5), (-5, -5), (-10, -5), (-10, -5), (-20, -10),
    (-10, -5), (0, 0), (5, 0), (0, 0), (0, 0), (0, 0), (0, 0), (-10, -5),
    (-10, -5), (5, 0), (5, 5), (5, 5), (5, 5), (5, 5), (0, 0), (-10, -5),
    (-5, -5), (0, 0), (5, 5), (5, 5), (5, 5), (5, 5), (0, 0), (-5, -5),
    (-5, -5), (0, 0), (5, 5), (5, 5), (5, 5), (5, 5), (0, 0), (-5, -5),
    (-10, -5), (5, 0), (5, 5), (5, 5), (5, 5), (5, 5), (0, 0), (-10, -5),
    (-10, -5), (0, 0), (5, 0), (0, 0), (0, 0), (0, 0), (0, 0), (-10, -5),
    (-20, -10), (-10, -5), (-10, -5), (-5, -5), (-5, -5), (-10, -5), (-10, -5), (-20, -10),
];

pub const PST_KING: [(i32, i32); 64] = [
    (20, -50), (30, -30), (10, -30), (0, -30), (0, -30), (10, -30), (30, -30), (20, -50),
    (20, -30), (0, -20), (0, -20), (0, -20), (0, -20), (0, -20), (0, -20), (20, -30),
    (-10, -10), (-20, 0), (-20, 0), (-20, 0), (-20, 0), (-20, 0), (-20, 0), (-10, -10),
    (-20, -20), (-30, -10), (-30, -10), (-40, -10), (-40, -10), (-30, -10), (-30, -10), (-20, -20),
    (-30, -20), (-40, -10), (-40, -10), (-50, -10), (-50, -10), (-40, -10), (-40, -10), (-30, -20),
    (-30, -20), (-40, -10), (-40, -10), (-50, -10), (-50, -10), (-40, -10), (-40, -10), (-30, -20),
    (-30, -20), (-40, -10), (-40, -10), (-50, -10), (-50, -10), (-40, -10), (-40, -10), (-30, -20),
    (-30, -20), (-40, -10), (-40, -10), (-50, -10), (-50, -10), (-40, -10), (-40, -10), (-30, -20),
];

pub const KNIGHT_MOBILITY: [(i32, i32); 9] = [(-20, -10), (-10, -5), (0, 0), (4, 4), (8, 8), (12, 10), (16, 12), (20, 14), (24, 16)];

pub const BISHOP_MOBILITY: [(i32, i32); 14] = [(-20, -10), (-10, -5), (0, 0), (3, 3), (6, 5), (9, 7), (12, 9), (15, 11), (18, 13), (20, 15), (22, 17), (24, 19), (26, 21), (28, 23)];

pub const ROOK_MOBILITY: [(i32, i32); 15] = [(-15, -10), (-8, -5), (0, 0), (2, 2), (4, 4), (6, 6), (8, 8), (10, 10), (12, 12), (14, 14), (16, 16), (18, 18), (20, 20), (22, 22), (24, 24)];

pub const QUEEN_MOBILITY: [(i32, i32); 28] = [(-10, -5), (-5, -2), (0, 0), (1, 1), (2, 2), (3, 3), (4, 4), (5, 5), (6, 6), (7, 7), (8, 8), (9, 9), (10, 10), (11, 11), (12, 12), (13, 13), (14, 14), (15, 15), (16, 16), (17, 17), (18, 18), (19, 19), (20, 20), (21, 21), (22, 22), (23, 23), (24, 24), (25, 25)];

/// The table index of a square for `c`: white reads the table as it is, black
/// mirrored top to bottom.
pub open spec fn pst_index(sq: int, c: Color) -> int {
    if c == Color::White {
        sq
    } else {
        (7 - rank_of(sq)) * 8 + file_of(sq)
    }
}

/// The (mg, eg) table value of a piece type on a square for `c`.
pub open spec fn pst_pair(pt: PieceType, sq: int, c: Color) -> (int, int) {
    let i = pst_index(sq, c);
    match pt {
        PieceType::Pawn => (PST_PAWN[i].0 as int, PST_PAWN[i].1 as int),
        PieceType::Knight => (PST_KNIGHT[i].0 as int, PST_KNIGHT[i].1 as int),
        PieceType::Bishop => (PST_BISHOP[i].0 as int, PST_BISHOP[i].1 as int),
        PieceType::Rook => (PST_ROOK[i].0 as int, PST_ROOK[i].1 as int),
        PieceType::Queen => (PST_QUEEN[i].0 as int, PST_QUEEN[i].1 as int),
        PieceType::King => (PST_KING[i].0 as int, PST_KING[i].1 as int),
        PieceType::Empty => (0, 0),
    }
}

/// Every table value lies within 55 centipawns of zero.
pub proof fn lemma_pst_bounds(pt: PieceType, sq: int, c: Color)
    requires
        0 <= sq < 64,
    ensures
        -55 <= pst_pair(pt, sq, c).0 <= 55,
        -55 <= pst_pair(pt, sq, c).1 <= 55,
{
    let i = pst_index(sq, c);
    assert(0 <= i < 64);
    assert(i == 0 || i == 1 || i == 2 || i == 3 || i == 4 || i == 5 || i == 6 || i == 7 || i == 8 || i == 9 || i == 10 || i == 11 || i == 12 || i == 13 || i == 14 || i == 15 || i == 16 || i == 17 || i == 18 || i == 19 || i == 20 || i == 21 || i == 22 || i == 23 || i == 24 || i == 25 || i == 26 || i == 27 || i == 28 || i == 29 || i == 30 || i == 31 || i == 32 || i == 33 || i == 34 || i == 35 || i == 36 || i == 37 || i == 38 || i == 39 || i == 40 || i == 41 || i == 42 || i == 43 || i == 44 || i == 45 || i == 46 || i == 47 || i == 48 || i == 49 || i == 50 || i == 51 || i == 52 || i == 53 || i == 54 || i == 55 || i == 56 || i == 57 || i == 58 || i == 59 || i == 60 || i == 61 || i == 62 || i == 63);
}

pub fn pst_value(pt: PieceType, sq: Square, color: Color) -> (r: (i32, i32))
    requires
        sq < 64,
    ensures
        (r.0 as int, r.1 as int) == pst_pair(pt, sq as int, color),
        -55 <= r.0 <= 55,
        -55 <= r.1 <= 55,
{
    proof {
        lemma_pst_bounds(pt, sq as int, color);
    }
    let idx = if color == Color::White {
        sq as usize
    } else {
        let r = 7 - sq_rank(sq);
        let f = sq_file(sq);
        (r * 8 + f) as usize
    };
    match pt {
        PieceType::Pawn => PST_PAWN[idx],
        PieceType::Knight => PST_KNIGHT[idx],
        PieceType::Bishop => PST_BISHOP[idx],
        PieceType::Rook => PST_ROOK[idx],
        PieceType::Queen => PST_QUEEN[idx],
        PieceType::King => PST_KING[idx],
        PieceType::Empty => (0, 0),
    }
}

// ---------------------------------------------------------------- sums over squares

/// The sum of `f` over the squares `sqs`.
pub open spec fn sum_over(sqs: Seq<int>, f: spec_fn(int) -> int) -> int
    decreases sqs.len(),
{
    if sqs.len() == 0 {
        0
    } else {
        f(sqs[0]) + sum_over(sqs.drop_first(), f)
    }
}

pub open spec fn sign_of(c: Color) -> int {
    if c == Color::White {
        1
    } else {
        -1
    }
}

pub open spec fn material_term(pt: PieceType) -> spec_fn(int) -> int {
    |sq: int| material_of(pt)
}

pub open spec fn pst_mg_term(pt: PieceType, c: Color) -> spec_fn(int) -> int {
    |sq: int| pst_pair(pt, sq, c).0
}

pub open spec fn pst_eg_term(pt: PieceType, c: Color) -> spec_fn(int) -> int {
    |sq: int| pst_pair(pt, sq, c).1
}

/// The signed material and table sums (material, material, pst mg, pst eg) of the
/// pieces of type `pt` and color `c` on `pieces`.
pub open spec fn piece_sums(pieces: u64, pt: PieceType, c: Color) -> (int, int, int, int) {
    let sqs = squares_of(pieces);
    let s = sign_of(c);
    (
        s * sum_over(sqs, material_term(pt)),
        s * sum_over(sqs, material_term(pt)),
        s * sum_over(sqs, pst_mg_term(pt, c)),
        s * sum_over(sqs, pst_eg_term(pt, c)),
    )
}

/// The sums over the first `k` bitboards, white pawn to king then black.
pub open spec fn material_pst_upto(b: Board, k: int) -> (int, int, int, int)
    decreases k,
{
    if k <= 0 {
        (0, 0, 0, 0)
    } else {
        let p = material_pst_upto(b, k - 1);
        let j = k - 1;
        let (c, ci, pt) = if j < 6 {
            (Color::White, 0, j)
        } else {
            (Color::Black, 1, j - 6)
        };
        let q = piece_sums(b.pieces[ci][pt], piece_type_of_index(pt), c);
        (p.0 + q.0, p.1 + q.1, p.2 + q.2, p.3 + q.3)
    }
}

pub proof fn lemma_squares_in_range(x: u64)
    ensures
        forall|i: int| 0 <= i < squares_of(x).len() ==> 0 <= #[trigger] squares_of(x)[i] < 64,
        squares_of(x).len() <= 64,
{
    crate::bitboard::lemma_squares_from_members(x, 0);
    crate::bitboard::lemma_popcount_bound(x);
}

/// The material and table sums of one bitboard of pieces.
fn piece_sums_of(pieces: Bb, pt: PieceType, color: Color) -> (r: (i32, i32, i32, i32))
    ensures
        (r.0 as int, r.1 as int, r.2 as int, r.3 as int) == piece_sums(pieces, pt, color),
        -57600 <= r.0 <= 57600,
        -57600 <= r.1 <= 57600,
        -3520 <= r.2 <= 3520,
        -3520 <= r.3 <= 3520,
{
    let sign: i32 = if color == Color::White {
        1
    } else {
        -1
    };
    let mut rest = pieces;
    let mut a: i32 = 0;
    let mut pm: i32 = 0;
    let mut pe: i32 = 0;
    proof {
        lemma_squares_in_range(pieces);
    }
    let ghost all = squares_of(pieces);
    while rest != 0
        invariant
            sign == sign_of(color),
            all == squares_of(pieces),
            all.len() <= 64,
            squares_of(rest).len() <= all.len(),
            a + sign * sum_over(squares_of(rest), material_term(pt)) == sign * sum_over(all, material_term(pt)),
            pm + sign * sum_over(squares_of(rest), pst_mg_term(pt, color)) == sign * sum_over(all, pst_mg_term(pt, color)),
            pe + sign * sum_over(squares_of(rest), pst_eg_term(pt, color)) == sign * sum_over(all, pst_eg_term(pt, color)),
            -900 * (all.len() - squares_of(rest).len()) <= a <= 900 * (all.len() - squares_of(rest).len()),
            -55 * (all.len() - squares_of(rest).len()) <= pm <= 55 * (all.len() - squares_of(rest).len()),
            -55 * (all.len() - squares_of(rest).len()) <= pe <= 55 * (all.len() - squares_of(rest).len()),
        decreases squares_of(rest).len(),
    {
        let ghost r0 = rest;
        let sq = bb_pop_lsb(&mut rest);
        let mat = pt.material_value();
        let (m, e) = pst_value(pt, sq, color);
        proof {
            assert(squares_of(r0)[0] == sq);
            assert(squares_of(rest) == squares_of(r0).drop_first());
            assert(0 <= mat <= 900);
        }
        a = a + sign * mat;
        pm = pm + sign * m;
        pe = pe + sign * e;
    }
    proof {
        crate::bitboard::lemma_squares_of_zero();
    }
    (a, a, pm, pe)
}

/// The material (mg, eg) and piece-square (mg, eg) balance, white minus black.
pub fn material_and_pst(board: &Board) -> (r: ((i32, i32), (i32, i32)))
    ensures
        (r.0.0 as int, r.0.1 as int, r.1.0 as int, r.1.1 as int) == material_pst_upto(*board, 12),
        -691200 <= r.0.0 <= 691200,
        -691200 <= r.0.1 <= 691200,
        -42240 <= r.1.0 <= 42240,
        -42240 <= r.1.1 <= 42240,
{
    let mut mat_mg: i32 = 0;
    let mut mat_eg: i32 = 0;
    let mut pst_mg_total: i32 = 0;
    let mut pst_eg_total: i32 = 0;
    let mut k: usize = 0;
    while k < 12
        invariant
            k <= 12,
            (mat_mg as int, mat_eg as int, pst_mg_total as int, pst_eg_total as int)
                == material_pst_upto(*board, k as int),
            -57600 * k <= mat_mg <= 57600 * k,
            -57600 * k <= mat_eg <= 57600 * k,
            -3520 * k <= pst_mg_total <= 3520 * k,
            -3520 * k <= pst_eg_total <= 3520 * k,
        decreases 12 - k,
    {
        let (c, ci, pt_u8) = if k < 6 {
            (Color::White, 0usize, k as u8)
        } else {
            (Color::Black, 1usize, (k - 6) as u8)
        };
        let pt = PieceType::from_u8(pt_u8);
        let q = piece_sums_of(board.pieces[ci][pt_u8 as usize], pt, c);
        mat_mg = mat_mg + q.0;
        mat_eg = mat_eg + q.1;
        pst_mg_total = pst_mg_total + q.2;
        pst_eg_total = pst_eg_total + q.3;
        k += 1;
    }
    ((mat_mg, mat_eg), (pst_mg_total, pst_eg_total))
}

/// The game phase of the position from the non-pawn material of both sides.
pub fn compute_phase(board: &Board) -> (p: i32)
    ensures
        p == phase_of(crate::board::npm_of(*board, Color::White) + crate::board::npm_of(*board, Color::Black)),
        0 <= p <= 256,
{
    let w = board.non_pawn_material(Color::White);
    let b = board.non_pawn_material(Color::Black);
    game_phase(w + b)
}


// ---------------------------------------------------------------- passed pawns

/// What the passed-pawn terms know of a pawn: its square, rank and file, its file
/// and the adjacent files as masks, both sides' pawns and its distance to promotion.
#[derive(Clone, Copy)]
pub struct PassedPawnContext {
    pub sq: Square,
    pub rank: u8,
    pub file: u8,
    pub file_bb: Bb,
    pub adj_files: Bb,
    pub our_pawns: Bb,
    pub their_pawns: Bb,
    pub promo_dist: u8,
}

/// No square of `pcs` on `files` lies ahead of `rank` for `color`.
pub open spec fn clear_ahead(pcs: u64, color: Color, rank: int, files: u64) -> bool {
    forall|s: int| !(#[trigger] bit(pcs, s) && bit(files, s) && is_ahead(color, rank, s))
}

/// Some square of `pcs` on `files` lies on `rank` or behind it for `color`.
pub open spec fn some_behind(pcs: u64, color: Color, rank: int, files: u64) -> bool {
    exists|s: int| #[trigger] bit(pcs, s) && bit(files, s) && is_behind_inclusive(color, rank, s)
}

/// An own pawn on an adjacent file that no enemy pawn ahead on its file or the
/// passer's file can stop.
pub open spec fn connected_passer(color: Color, p: PassedPawnContext) -> bool {
    exists|s: int|
        #[trigger] bit(p.adj_files & p.our_pawns, s) && clear_ahead(
            p.their_pawns,
            color,
            rank_of(s),
            BB_FILES[file_of(s)] | BB_FILES[p.file as int],
        )
}

pub open spec fn non_negative(x: int) -> int {
    if x > 0 {
        x
    } else {
        0
    }
}

/// The endgame king proximity term of a passed pawn (before its sign).
pub open spec fn proximity_value(b: Board, color: Color, sq: int) -> int {
    let ok = b.king_sq[color.idx()];
    let tk = b.king_sq[1 - color.idx()];
    if ok != NO_SQUARE && tk != NO_SQUARE {
        non_negative(4 - king_distance(ok as int, sq)) * 5 + non_negative(
            king_distance(tk as int, sq) - 3,
        ) * 5
    } else {
        0
    }
}

/// The (mg, eg) bonus of a passed pawn: by its advancement; for a clear path; in
/// the endgame for the own king near and the enemy king far; with a connected
/// partner; with an own rook behind it. Signed for the color.
pub open spec fn passer_value(b: Board, color: Color, p: PassedPawnContext) -> (int, int) {
    let s = sign_of(color);
    let adv = 7 - p.promo_dist;
    let ci = color.idx();
    let mg0 = s * PASSED_PAWN_BONUS_MG[adv];
    let eg0 = s * PASSED_PAWN_BONUS_EG[adv];
    let clear = clear_ahead(b.occ_all, color, p.rank as int, p.file_bb);
    let mg1 = if clear {
        mg0 + s * 5
    } else {
        mg0
    };
    let eg1 = if clear {
        eg0 + s * 20
    } else {
        eg0
    };
    let eg2 = eg1 + s * proximity_value(b, color, p.sq as int);
    let conn = connected_passer(color, p);
    let mg3 = if conn {
        mg1 + s * 10
    } else {
        mg1
    };
    let eg3 = if conn {
        eg2 + s * 20
    } else {
        eg2
    };
    if some_behind(b.pieces[ci][3], color, p.rank as int, p.file_bb) {
        (mg3 + s * 10, eg3 + s * 20)
    } else {
        (mg3, eg3)
    }
}

/// The context of a pawn is one `passed_pawn_bonuses` can read.
pub open spec fn passer_context_ok(p: PassedPawnContext) -> bool {
    &&& p.sq < 64
    &&& p.rank < 8
    &&& p.file < 8
    &&& p.promo_dist <= 7
}

pub proof fn lemma_and_zero_iff(x: u64, y: u64)
    ensures
        (x & y == 0) == (forall|s: int| !(#[trigger] bit(x, s) && bit(y, s))),
{
    lemma_and_nonzero(x, y);
    if x & y == 0 {
        assert forall|s: int| !(#[trigger] bit(x, s) && bit(y, s)) by {
            if bit(x, s) && bit(y, s) {
                assert(0 <= s < 64);
            }
        }
    }
}

/// Whether a passed pawn has a connected partner.
fn has_connected_partner(color: Color, passed: PassedPawnContext) -> (found: bool)
    requires
        passer_context_ok(passed),
    ensures
        found == connected_passer(color, passed),
{
    let all_adj = passed.adj_files & passed.our_pawns;
    let mut adj_pawns = all_adj;
    let mut found = false;
    let ghost mut wit: int = 0;
    while adj_pawns != 0 && !found
        invariant
            forall|s: int| #[trigger] bit(adj_pawns, s) ==> bit(all_adj, s),
            !found ==> forall|s: int|
                bit(all_adj, s) && !bit(adj_pawns, s) ==> !clear_ahead(
                    passed.their_pawns,
                    color,
                    rank_of(s),
                    BB_FILES[file_of(s)] | BB_FILES[passed.file as int],
                ),
            found ==> bit(all_adj, wit) && clear_ahead(
                passed.their_pawns,
                color,
                rank_of(wit),
                BB_FILES[file_of(wit)] | BB_FILES[passed.file as int],
            ),
            passer_context_ok(passed),
        decreases squares_of(adj_pawns).len(),
    {
        broadcast use group_bit_lemmas;

        let adj_sq = bb_pop_lsb(&mut adj_pawns);
        let adj_file_bb = BB_FILES[sq_file(adj_sq) as usize];
        let adj_rank = sq_rank(adj_sq);
        let adj_ahead = ranks_ahead(color, adj_rank, adj_file_bb | BB_FILES[passed.file as usize]);
        proof {
            lemma_and_zero_iff(passed.their_pawns, adj_ahead);
            assert(bit(all_adj, adj_sq as int));
        }
        if passed.their_pawns & adj_ahead == 0 {
            found = true;
            proof {
                wit = adj_sq as int;
            }
        }
    }
    proof {
        broadcast use group_bit_lemmas;

        if !found {
            crate::bitboard::lemma_empty_iff_zero(adj_pawns);
        }
    }
    found
}

fn king_proximity(board: &Board, color: Color, sq: Square) -> (v: i32)
    requires
        board.consistent(),
        sq < 64,
    ensures
        v == proximity_value(*board, color, sq as int),
        0 <= v <= 40,
{
    let our_king = board.king_sq[color.index()];
    let their_king = board.king_sq[color.flip().index()];
    if our_king != NO_SQUARE && their_king != NO_SQUARE {
        let our_dist = chebyshev_distance(our_king, sq);
        let their_dist = chebyshev_distance(their_king, sq);
        let near = 4i32 - our_dist as i32;
        let near = if near > 0 {
            near
        } else {
            0
        };
        let far = their_dist as i32 - 3;
        let far = if far > 0 {
            far
        } else {
            0
        };
        near * PASSER_KING_PROXIMITY_EG + far * PASSER_ENEMY_KING_DIST_EG
    } else {
        0
    }
}

/// The bonuses of one passed pawn.
pub fn passed_pawn_bonuses(board: &Board, color: Color, passed: PassedPawnContext) -> (r: (i32, i32))
    requires
        board.consistent(),
        passer_context_ok(passed),
    ensures
        (r.0 as int, r.1 as int) == passer_value(*board, color, passed),
        -95 <= r.0 <= 95,
        -220 <= r.1 <= 220,
{
    let mut mg: i32 = 0;
    let mut eg: i32 = 0;
    let ci = color.index();
    let sign: i32 = if color == Color::White {
        1
    } else {
        -1
    };
    let adv = (7 - passed.promo_dist) as usize;
    let adv = if adv < 7 {
        adv
    } else {
        7
    };
    proof {
        assert(PASSED_PAWN_BONUS_MG[adv as int] <= 70 && PASSED_PAWN_BONUS_EG[adv as int] <= 120
            && PASSED_PAWN_BONUS_MG[adv as int] >= 0 && PASSED_PAWN_BONUS_EG[adv as int] >= 0) by {
            assert(adv == 0 || adv == 1 || adv == 2 || adv == 3 || adv == 4 || adv == 5 || adv == 6
                || adv == 7);
        }
    }
    mg = mg + sign * PASSED_PAWN_BONUS_MG[adv];
    eg = eg + sign * PASSED_PAWN_BONUS_EG[adv];
    // Path clear bonus
    let path_mask = ranks_ahead(color, passed.rank, passed.file_bb);
    proof {
        lemma_and_zero_iff(board.occ_all, path_mask);
    }
    if board.occ_all & path_mask == 0 {
        mg = mg + sign * PASSER_PATH_CLEAR_BONUS.0;
        eg = eg + sign * PASSER_PATH_CLEAR_BONUS.1;
    }
    // King proximity
    let prox = king_proximity(board, color, passed.sq);
    proof {
        assert(-40 <= sign * prox <= 40) by (nonlinear_arith)
            requires
                sign == 1 || sign == -1,
                0 <= prox <= 40,
        ;
    }
    eg = eg + sign * prox;
    // Connected passed pawns
    if has_connected_partner(color, passed) {
        mg = mg + sign * CONNECTED_PASSER_BONUS.0;
        eg = eg + sign * CONNECTED_PASSER_BONUS.1;
    }
    // Rook behind passed pawn
    let rooks = board.pieces[ci][3];
    let behind_mask = ranks_behind_inclusive(color, passed.rank, passed.file_bb);
    proof {
        lemma_and_zero_iff(rooks, behind_mask);
    }
    if rooks & behind_mask != 0 {
        mg = mg + sign * ROOK_BEHIND_PASSER_BONUS.0;
        eg = eg + sign * ROOK_BEHIND_PASSER_BONUS.1;
    }
    (mg, eg)
}

} // verus!

verus! {

// ---------------------------------------------------------------- evaluation context

/// What the evaluation reads besides the board: the attack tables and the options.
pub struct EvalContext<'a> {
    pub atk: &'a AttackTables,
    pub options: &'a EngineOptions,
}

} // verus!

verus! {

// ---------------------------------------------------------------- the evaluation

/// Every evaluation scale lies between 0 and 300 percent, as the option setters
/// keep them.
pub open spec fn scales_ok(o: EvalOptions) -> bool {
    &&& 0 <= o.material_scale <= 300
    &&& 0 <= o.pst_scale <= 300
    &&& 0 <= o.mobility_scale <= 300
    &&& 0 <= o.pawn_structure_scale <= 300
    &&& 0 <= o.king_safety_scale <= 300
}

/// Setting any UCI option keeps every evaluation scale within 0..=300: a scale
/// read from its text is clamped into that range, and other options leave the
/// scales alone.
pub proof fn lemma_option_set_keeps_scales(
    o: EngineOptions,
    o2: EngineOptions,
    key: Seq<char>,
    value: Seq<char>,
)
    requires
        scales_ok(o.eval),
        crate::config::option_set(o, o2, key, value),
    ensures
        scales_ok(o2.eval),
{
    let s = crate::config::scale_setting(value);
    if let Some(v) = s {
        let c = crate::config::clamped(
            crate::text::parse_signed(value, i32::MIN as int, i32::MAX as int)->Some_0,
            0,
            300,
        );
        assert(0 <= c <= 300);
        assert(0 <= v <= 300);
    }
}

/// The evaluation terms, each (mg, eg) and blended by the phase, with both raw
/// mobility counts and the white and side-to-move scores.
#[derive(Clone, Copy, Debug, PartialEq, Eq, Structural)]
pub struct EvalBreakdown {
    pub phase: i32,
    pub material_mg: i32,
    pub material_eg: i32,
    pub material_cp: i32,
    pub pst_mg: i32,
    pub pst_eg: i32,
    pub pst_cp: i32,
    pub mobility_mg: i32,
    pub mobility_eg: i32,
    pub mobility_cp: i32,
    pub mobility_white: u32,
    pub mobility_black: u32,
    pub pawn_structure_mg: i32,
    pub pawn_structure_eg: i32,
    pub pawn_structure_cp: i32,
    pub king_safety_mg: i32,
    pub king_safety_eg: i32,
    pub king_safety_cp: i32,
    pub freedom: i32,
    pub trade_down_mg: i32,
    pub trade_down_eg: i32,
    pub trade_down_cp: i32,
    pub weak_squares_mg: i32,
    pub weak_squares_eg: i32,
    pub weak_squares_cp: i32,
    pub coordination_mg: i32,
    pub coordination_eg: i32,
    pub coordination_cp: i32,
    pub advanced_pawns_mg: i32,
    pub advanced_pawns_eg: i32,
    pub advanced_pawns_cp: i32,
    pub white_score: i32,
    pub side_to_move_score: i32,
}

/// A (mg, eg) pair scaled by a percentage.
pub open spec fn scaled_pair(x: (int, int), scale: int) -> (int, int) {
    (div_trunc(x.0 * scale, 100), div_trunc(x.1 * scale, 100))
}

/// The evaluation of `b` under the scales `o`: each term scaled, the scaled terms
/// summed and blended by the phase; the side-to-move score is the white score
/// turned to the side to move, plus the tempo bonus.
pub open spec fn breakdown_value(b: Board, o: EvalOptions) -> EvalBreakdown {
    let phase = phase_of(npm_of(b, Color::White) + npm_of(b, Color::Black));
    let mp = material_pst_upto(b, 12);
    let mat = scaled_pair((mp.0, mp.1), o.material_scale as int);
    let pst = scaled_pair((mp.2, mp.3), o.pst_scale as int);
    let mob = scaled_pair(mobility_activity_value(b), o.mobility_scale as int);
    let pw = scaled_pair(pawn_structure_value(b), o.pawn_structure_scale as int);
    let ks = scaled_pair(king_safety_value(b), o.king_safety_scale as int);
    let mg = mat.0 + pst.0 + mob.0 + pw.0 + ks.0;
    let eg = mat.1 + pst.1 + mob.1 + pw.1 + ks.1;
    let score = blend(mg, eg, phase);
    let side_sign = if b.side == Color::White {
        1int
    } else {
        -1int
    };
    EvalBreakdown {
        phase: phase as i32,
        material_mg: mat.0 as i32,
        material_eg: mat.1 as i32,
        material_cp: blend(mat.0, mat.1, phase) as i32,
        pst_mg: pst.0 as i32,
        pst_eg: pst.1 as i32,
        pst_cp: blend(pst.0, pst.1, phase) as i32,
        mobility_mg: mob.0 as i32,
        mobility_eg: mob.1 as i32,
        mobility_cp: blend(mob.0, mob.1, phase) as i32,
        mobility_white: side_mobility_value(b, Color::White) as u32,
        mobility_black: side_mobility_value(b, Color::Black) as u32,
        pawn_structure_mg: pw.0 as i32,
        pawn_structure_eg: pw.1 as i32,
        pawn_structure_cp: blend(pw.0, pw.1, phase) as i32,
        king_safety_mg: ks.0 as i32,
        king_safety_eg: ks.1 as i32,
        king_safety_cp: blend(ks.0, ks.1, phase) as i32,
        freedom: 0,
        trade_down_mg: 0,
        trade_down_eg: 0,
        trade_down_cp: 0,
        weak_squares_mg: 0,
        weak_squares_eg: 0,
        weak_squares_cp: 0,
        coordination_mg: 0,
        coordination_eg: 0,
        coordination_cp: 0,
        advanced_pawns_mg: 0,
        advanced_pawns_eg: 0,
        advanced_pawns_cp: 0,
        white_score: score as i32,
        side_to_move_score: (score * side_sign + 10) as i32,
    }
}

proof fn lemma_scaled_bound(x: int, s: int, m: int)
    requires
        -m <= x <= m,
        0 <= s <= 300,
        0 <= m,
    ensures
        -300 * m <= x * s <= 300 * m,
        -3 * m <= div_trunc(x * s, 100) <= 3 * m,
{
    assert(-300 * m <= x * s <= 300 * m) by (nonlinear_arith)
        requires
            -m <= x <= m,
            0 <= s <= 300,
            0 <= m,
    ;
}

/// A (mg, eg) pair of terms scaled by a percentage.
fn scale_pair(x: (i32, i32), scale: i32, Ghost(m): Ghost<int>) -> (r: (i32, i32))
    requires
        -m <= x.0 <= m,
        -m <= x.1 <= m,
        0 <= scale <= 300,
        0 <= m <= 1_000_000,
    ensures
        (r.0 as int, r.1 as int) == scaled_pair((x.0 as int, x.1 as int), scale as int),
        -3 * m <= r.0 <= 3 * m,
        -3 * m <= r.1 <= 3 * m,
{
    proof {
        lemma_scaled_bound(x.0 as int, scale as int, m);
        lemma_scaled_bound(x.1 as int, scale as int, m);
    }
    scale_score_pair(x, scale)
}

pub fn evaluate_breakdown(board: &Board, ctx: &EvalContext) -> (r: EvalBreakdown)
    requires
        board.consistent(),
        ctx.atk.wf(),
        scales_ok(ctx.options.eval),
    ensures
        r == breakdown_value(*board, ctx.options.eval),
        -4_000_000 <= r.white_score <= 4_000_000,
        r.side_to_move_score == (if board.side == Color::White {
            r.white_score as int
        } else {
            -r.white_score
        }) + TEMPO_BONUS,
{
    let o = ctx.options.eval;
    let phase = compute_phase(board);
    let ((mat_mg, mat_eg), (pst_mg, pst_eg)) = material_and_pst(board);
    let (mat_mg, mat_eg) = scale_pair((mat_mg, mat_eg), o.material_scale, Ghost(691200));
    let (pst_mg, pst_eg) = scale_pair((pst_mg, pst_eg), o.pst_scale, Ghost(42240));
    let (mob_mg, mob_eg) = mobility_and_activity(board, ctx);
    let (mob_mg, mob_eg) = scale_pair((mob_mg, mob_eg), o.mobility_scale, Ghost(32868));
    let mobility_white = side_mobility(board, ctx, Color::White);
    let mobility_black = side_mobility(board, ctx, Color::Black);
    let (pawn_mg, pawn_eg) = pawn_structure(board);
    let (pawn_mg, pawn_eg) = scale_pair((pawn_mg, pawn_eg), o.pawn_structure_scale, Ghost(34176));
    let (ks_mg, ks_eg) = king_safety(board, ctx);
    let (ks_mg, ks_eg) = scale_pair((ks_mg, ks_eg), o.king_safety_scale, Ghost(2000));
    let mg_score = mat_mg + pst_mg + mob_mg + pawn_mg + ks_mg;
    let eg_score = mat_eg + pst_eg + mob_eg + pawn_eg + ks_eg;
    let freedom: i32 = 0;
    let (trade_mg, trade_eg): (i32, i32) = (0, 0);
    let (ws_mg, ws_eg): (i32, i32) = (0, 0);
    let (pc_mg, pc_eg): (i32, i32) = (0, 0);
    let (ap_mg, ap_eg): (i32, i32) = (0, 0);
    let score = blend_phase(mg_score, eg_score, phase);
    let tempo: i32 = TEMPO_BONUS;
    let signed_score: i32 = if board.side == Color::White {
        score
    } else {
        -score
    };
    EvalBreakdown {
        phase,
        material_mg: mat_mg,
        material_eg: mat_eg,
        material_cp: blend_phase(mat_mg, mat_eg, phase),
        pst_mg,
        pst_eg,
        pst_cp: blend_phase(pst_mg, pst_eg, phase),
        mobility_mg: mob_mg,
        mobility_eg: mob_eg,
        mobility_cp: blend_phase(mob_mg, mob_eg, phase),
        mobility_white,
        mobility_black,
        pawn_structure_mg: pawn_mg,
        pawn_structure_eg: pawn_eg,
        pawn_structure_cp: blend_phase(pawn_mg, pawn_eg, phase),
        king_safety_mg: ks_mg,
        king_safety_eg: ks_eg,
        king_safety_cp: blend_phase(ks_mg, ks_eg, phase),
        freedom,
        trade_down_mg: trade_mg,
        trade_down_eg: trade_eg,
        trade_down_cp: blend_phase(trade_mg, trade_eg, phase),
        weak_squares_mg: ws_mg,
        weak_squares_eg: ws_eg,
        weak_squares_cp: blend_phase(ws_mg, ws_eg, phase),
        coordination_mg: pc_mg,
        coordination_eg: pc_eg,
        coordination_cp: blend_phase(pc_mg, pc_eg, phase),
        advanced_pawns_mg: ap_mg,
        advanced_pawns_eg: ap_eg,
        advanced_pawns_cp: blend_phase(ap_mg, ap_eg, phase),
        white_score: score,
        side_to_move_score: signed_score + tempo,
    }
}

/// Evaluate the position. Returns score in centipawns from the perspective of the side to move.
pub fn evaluate(board: &Board, ctx: &EvalContext) -> (r: i32)
    requires
        board.consistent(),
        ctx.atk.wf(),
        scales_ok(ctx.options.eval),
    ensures
        r == breakdown_value(*board, ctx.options.eval).side_to_move_score,
        r == (if board.side == Color::White {
            breakdown_value(*board, ctx.options.eval).white_score as int
        } else {
            -breakdown_value(*board, ctx.options.eval).white_score
        }) + TEMPO_BONUS,
        -4_000_000 + TEMPO_BONUS <= r <= 4_000_000 + TEMPO_BONUS,
{
    evaluate_breakdown(board, ctx).side_to_move_score
}

// ---------------------------------------------------------------- side to move

proof fn lemma_material_pst_ignores_side(b: Board, b2: Board, k: int)
    requires
        b2 == (Board { side: b2.side, ..b }),
    ensures
        material_pst_upto(b2, k) == material_pst_upto(b, k),
    decreases k,
{
    if k > 0 {
        lemma_material_pst_ignores_side(b, b2, k - 1);
    }
}

/// The white score looks at the pieces, not at whose move it is: the same position
/// with either side to move has the same white score (the side-to-move score is
/// that score turned to the side to move, plus the tempo bonus).
pub proof fn lemma_white_score_ignores_side(b: Board, c: Color, o: EvalOptions)
    ensures
        breakdown_value(Board { side: c, ..b }, o).white_score == breakdown_value(b, o).white_score,
{
    let b2 = Board { side: c, ..b };
    lemma_material_pst_ignores_side(b, b2, 12);
    assert(crate::eval_pawns::pawn_term_mg(b2, Color::White) =~= crate::eval_pawns::pawn_term_mg(b, Color::White));
    assert(crate::eval_pawns::pawn_term_eg(b2, Color::White) =~= crate::eval_pawns::pawn_term_eg(b, Color::White));
    assert(crate::eval_pawns::pawn_term_mg(b2, Color::Black) =~= crate::eval_pawns::pawn_term_mg(b, Color::Black));
    assert(crate::eval_pawns::pawn_term_eg(b2, Color::Black) =~= crate::eval_pawns::pawn_term_eg(b, Color::Black));
    assert forall|color: Color, kind: int| true implies crate::eval_activity::activity_mg(b2, color, kind)
        =~= crate::eval_activity::activity_mg(b, color, kind) && crate::eval_activity::activity_eg(
        b2,
        color,
        kind,
    ) =~= crate::eval_activity::activity_eg(b, color, kind) by {}
    assert(pawn_structure_value(b2) == pawn_structure_value(b));
    assert(mobility_activity_value(b2) == mobility_activity_value(b));
    assert(king_safety_value(b2) == king_safety_value(b));
}

/// Each evaluation term is scaled by its own option alone: two sets of scales that
/// agree on a term's option give that term the same value, whatever the other
/// options are.
pub proof fn law_terms_scaled_by_own_option(b: Board, o1: EvalOptions, o2: EvalOptions)
    ensures
        o1.material_scale == o2.material_scale ==> breakdown_value(b, o1).material_mg == breakdown_value(
            b,
            o2,
        ).material_mg && breakdown_value(b, o1).material_eg == breakdown_value(b, o2).material_eg,
        o1.pst_scale == o2.pst_scale ==> breakdown_value(b, o1).pst_mg == breakdown_value(b, o2).pst_mg
            && breakdown_value(b, o1).pst_eg == breakdown_value(b, o2).pst_eg,
        o1.mobility_scale == o2.mobility_scale ==> breakdown_value(b, o1).mobility_mg == breakdown_value(
            b,
            o2,
        ).mobility_mg && breakdown_value(b, o1).mobility_eg == breakdown_value(b, o2).mobility_eg,
        o1.pawn_structure_scale == o2.pawn_structure_scale ==> breakdown_value(b, o1).pawn_structure_mg
            == breakdown_value(b, o2).pawn_structure_mg && breakdown_value(b, o1).pawn_structure_eg
            == breakdown_value(b, o2).pawn_structure_eg,
        o1.king_safety_scale == o2.king_safety_scale ==> breakdown_value(b, o1).king_safety_mg
            == breakdown_value(b, o2).king_safety_mg && breakdown_value(b, o1).king_safety_eg
            == breakdown_value(b, o2).king_safety_eg,
{
}

/// A term whose option is set to zero contributes nothing.
pub proof fn law_zero_scale_silences_term(b: Board, o: EvalOptions)
    ensures
        o.material_scale == 0 ==> breakdown_value(b, o).material_mg == 0 && breakdown_value(b, o).material_eg
            == 0,
        o.pst_scale == 0 ==> breakdown_value(b, o).pst_mg == 0 && breakdown_value(b, o).pst_eg == 0,
        o.mobility_scale == 0 ==> breakdown_value(b, o).mobility_mg == 0 && breakdown_value(b, o).mobility_eg
            == 0,
        o.pawn_structure_scale == 0 ==> breakdown_value(b, o).pawn_structure_mg == 0 && breakdown_value(
            b,
            o,
        ).pawn_structure_eg == 0,
        o.king_safety_scale == 0 ==> breakdown_value(b, o).king_safety_mg == 0 && breakdown_value(
            b,
            o,
        ).king_safety_eg == 0,
{
}


} // verus!
