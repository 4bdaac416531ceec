use vstd::prelude::*;
use crate::bitboard::{bb, bb_pop_lsb, bb_popcount, bit, lemma_and_single, lemma_popcount_bound, lemma_squares_of_zero, popcount, squares_of};
use crate::board::Board;
use crate::eval::{lemma_squares_in_range, non_negative, sign_of, sum_over, EvalContext, BISHOP_MOBILITY, KNIGHT_MOBILITY, QUEEN_MOBILITY, ROOK_MOBILITY};
use crate::eval_pawns::{adjacent_files, adjacent_files_of, pawn_attacks_by, pawn_attacks_of};
use crate::eval_terms::{lemma_file_rank_masks, rook_file_bonus, rook_file_value, BISHOP_PAIR_BONUS, KING_ATTACK_WEIGHT_BISHOP, KING_ATTACK_WEIGHT_KNIGHT, KING_ATTACK_WEIGHT_QUEEN, KING_ATTACK_WEIGHT_ROOK, KING_CENTRALIZATION_EG, KING_SAFETY_TABLE, OUTPOST_SUPPORTED, OUTPOST_UNSUPPORTED, PAWN_SHIELD_BASE_PENALTY, PAWN_SHIELD_PER_PAWN, ROOK_ON_SEVENTH_BONUS};
use crate::magic::AttackTables;
use crate::movegen::{attack_set, king_set, lemma_leaper_sets};
use crate::types::{Bb, Color, Square, BB_FILES, BB_FILE_A, BB_FILE_H, BB_RANK_2, BB_RANK_3, BB_RANK_6, BB_RANK_7, NO_SQUARE, file_of, rank_of, sq_file, sq_rank};

verus! {

/// The squares a piece of kind `kind` (1 knight, 2 bishop, 3 rook, 4 queen, 5 king)
/// on `sq` attacks with the occupancy `occ`.
pub fn piece_attack_set(atk: &AttackTables, kind: u8, sq: Square, occ: Bb) -> (r: Bb)
    requires
        atk.wf(),
        1 <= kind <= 5,
        sq < 64,
    ensures
        r == attack_set(kind as int, sq as int, occ),
{
    proof {
        lemma_leaper_sets(atk, sq as int);
    }
    if kind == 1 {
        atk.knight[sq as usize]
    } else if kind == 2 {
        atk.bishop_attacks(sq, occ)
    } else if kind == 3 {
        atk.rook_attacks(sq, occ)
    } else if kind == 4 {
        atk.queen_attacks(sq, occ)
    } else {
        atk.king[sq as usize]
    }
}

// ---------------------------------------------------------------- king safety

/// The king zone: the king's square and the squares around it.
pub open spec fn king_zone(k: int) -> u64 {
    king_set(k) | (1u64 << (k as u64))
}

/// The attack units a piece of kind `kind` brings against the king zone.
pub open spec fn attack_weight(kind: int) -> int {
    if kind <= 2 {
        2
    } else if kind == 3 {
        3
    } else {
        5
    }
}

pub open spec fn zone_hits(kind: int, occ: u64, zone: u64) -> spec_fn(int) -> int {
    |s: int|
        if attack_set(kind, s, occ) & zone != 0 {
            attack_weight(kind)
        } else {
            0
        }
}

/// The attack units of the enemy pieces of kind `kind` against `zone`.
pub open spec fn kind_units(b: Board, color: Color, kind: int, zone: u64) -> int {
    sum_over(squares_of(b.pieces[color.opposite().idx()][kind]), zone_hits(kind, b.occ_all, zone))
}

/// The attack units of the enemy knights, bishops, rooks and queens against `zone`.
pub open spec fn attack_units(b: Board, color: Color, zone: u64) -> int {
    kind_units(b, color, 1, zone) + kind_units(b, color, 2, zone) + kind_units(b, color, 3, zone)
        + kind_units(b, color, 4, zone)
}

/// The king safety penalty of a number of attack units.
pub open spec fn safety_penalty(units: int) -> int {
    if units <= 2 {
        0
    } else if units <= 5 {
        10
    } else if units <= 8 {
        25
    } else if units <= 11 {
        50
    } else if units <= 15 {
        80
    } else if units <= 20 {
        120
    } else {
        160
    }
}

pub open spec fn abs_int(x: int) -> int {
    if x < 0 {
        -x
    } else {
        x
    }
}

pub open spec fn min_int(a: int, b: int) -> int {
    if a <= b {
        a
    } else {
        b
    }
}

/// Steps from file `f` and rank `r` to the four centre squares.
pub open spec fn center_distance(f: int, r: int) -> int {
    min_int(abs_int(3 - f), abs_int(4 - f)) + min_int(abs_int(3 - r), abs_int(4 - r))
}

/// The ranks of the pawn shield of `color`.
pub open spec fn shield_ranks(color: Color) -> u64 {
    if color == Color::White {
        BB_RANK_2 | BB_RANK_3
    } else {
        BB_RANK_6 | BB_RANK_7
    }
}

/// The king safety of one side, signed for the color: the pawn shield, the enemy
/// attacks on the king zone, and in the endgame the king's nearness to the centre.
pub open spec fn king_side_value(b: Board, color: Color) -> (int, int) {
    let ci = color.idx();
    let k = b.king_sq[ci];
    if k == NO_SQUARE {
        (0, 0)
    } else {
        let f = file_of(k as int);
        let r = rank_of(k as int);
        let files = BB_FILES[f] | adjacent_files(f);
        let shield = popcount(b.pieces[ci][0] & shield_ranks(color) & files) as int;
        let units = attack_units(b, color, king_zone(k as int));
        let s = sign_of(color);
        (
            s * (shield * 10 - 30) + s * (-safety_penalty(units)),
            s * (non_negative(3 - center_distance(f, r)) * 10),
        )
    }
}

/// The king safety balance, white plus black.
pub open spec fn king_safety_value(b: Board) -> (int, int) {
    let w = king_side_value(b, Color::White);
    let k = king_side_value(b, Color::Black);
    (w.0 + k.0, w.1 + k.1)
}

/// The attack units of the enemy pieces of one kind against `zone`.
fn zone_units(board: &Board, atk: &AttackTables, color: Color, kind: u8, zone: Bb) -> (u: i32)
    requires
        atk.wf(),
        1 <= kind <= 4,
    ensures
        u == kind_units(*board, color, kind as int, zone),
        0 <= u <= 320,
{
    let pieces = board.pieces[color.flip().index()][kind as usize];
    let w: i32 = if kind == 1 {
        KING_ATTACK_WEIGHT_KNIGHT
    } else if kind == 2 {
        KING_ATTACK_WEIGHT_BISHOP
    } else if kind == 3 {
        KING_ATTACK_WEIGHT_ROOK
    } else {
        KING_ATTACK_WEIGHT_QUEEN
    };
    let mut rest = pieces;
    let mut u: i32 = 0;
    proof {
        lemma_squares_in_range(pieces);
    }
    let ghost all = squares_of(pieces);
    let ghost f = zone_hits(kind as int, board.occ_all, zone);
    while rest != 0
        invariant
            atk.wf(),
            1 <= kind <= 4,
            w == attack_weight(kind as int),
            f == zone_hits(kind as int, board.occ_all, zone),
            all == squares_of(pieces),
            all.len() <= 64,
            squares_of(rest).len() <= all.len(),
            u + sum_over(squares_of(rest), f) == sum_over(all, f),
            0 <= u <= 5 * (all.len() - squares_of(rest).len()),
        decreases squares_of(rest).len(),
    {
        let ghost r0 = rest;
        let sq = bb_pop_lsb(&mut rest);
        if piece_attack_set(atk, kind, sq, board.occ_all) & zone != 0 {
            u = u + w;
        }
    }
    proof {
        lemma_squares_of_zero();
    }
    u
}

/// The king safety penalty of `units`, read from the table.
fn king_safety_penalty(units: i32) -> (p: i32)
    ensures
        p == safety_penalty(units as int),
{
    let mut i: usize = 0;
    while i < 7
        invariant
            i <= 7,
            i > 0 ==> units > KING_SAFETY_TABLE[i - 1].0,
        decreases 7 - i,
    {
        if units <= KING_SAFETY_TABLE[i].0 {
            assert(i == 0 || i == 1 || i == 2 || i == 3 || i == 4 || i == 5 || i == 6);
            return KING_SAFETY_TABLE[i].1;
        }
        i += 1;
    }
    230
}

/// The king safety of one side.
fn king_side(board: &Board, atk: &AttackTables, color: Color) -> (r: (i32, i32))
    requires
        board.consistent(),
        atk.wf(),
    ensures
        (r.0 as int, r.1 as int) == king_side_value(*board, color),
        -1000 <= r.0 <= 1000,
        -30 <= r.1 <= 30,
{
    let ci = color.index();
    let king_sq = board.king_sq[ci];
    if king_sq == NO_SQUARE {
        return (0, 0);
    }
    proof {
        assert(king_sq < 64);
    }
    // Pawn shield
    let king_file = sq_file(king_sq);
    let shield_rank = if color == Color::White {
        BB_RANK_2 | BB_RANK_3
    } else {
        BB_RANK_6 | BB_RANK_7
    };
    let shield_files = BB_FILES[king_file as usize] | adjacent_files_of(king_file);
    let shield = board.pieces[ci][0] & shield_rank & shield_files;
    let sc = bb_popcount(shield);
    proof {
        lemma_popcount_bound(shield);
    }
    let shield_count = sc as i32;
    let shield_score = shield_count * PAWN_SHIELD_PER_PAWN - PAWN_SHIELD_BASE_PENALTY;
    // King zone attacks
    let king_zone = piece_attack_set(atk, 5, king_sq, board.occ_all) | bb(king_sq);
    let attack_units = zone_units(board, atk, color, 1, king_zone) + zone_units(
        board,
        atk,
        color,
        2,
        king_zone,
    ) + zone_units(board, atk, color, 3, king_zone) + zone_units(board, atk, color, 4, king_zone);
    let penalty = king_safety_penalty(attack_units);
    // King centralization bonus (endgame only)
    let king_rank = sq_rank(king_sq) as i32;
    let kf = king_file as i32;
    let df3 = if 3 - kf < 0 {
        kf - 3
    } else {
        3 - kf
    };
    let df4 = if 4 - kf < 0 {
        kf - 4
    } else {
        4 - kf
    };
    let dr3 = if 3 - king_rank < 0 {
        king_rank - 3
    } else {
        3 - king_rank
    };
    let dr4 = if 4 - king_rank < 0 {
        king_rank - 4
    } else {
        4 - king_rank
    };
    let center_dist = (if df3 <= df4 {
        df3
    } else {
        df4
    }) + (if dr3 <= dr4 {
        dr3
    } else {
        dr4
    });
    let near = if 3 - center_dist > 0 {
        3 - center_dist
    } else {
        0
    };
    let mg = shield_score - penalty;
    let eg = near * KING_CENTRALIZATION_EG;
    if color == Color::White {
        (mg, eg)
    } else {
        (-mg, -eg)
    }
}

/// The king safety terms, white plus black.
pub fn king_safety(board: &Board, ctx: &EvalContext) -> (r: (i32, i32))
    requires
        board.consistent(),
        ctx.atk.wf(),
    ensures
        (r.0 as int, r.1 as int) == king_safety_value(*board),
        -2000 <= r.0 <= 2000,
        -60 <= r.1 <= 60,
{
    let w = king_side(board, ctx.atk, Color::White);
    let b = king_side(board, ctx.atk, Color::Black);
    (w.0 + b.0, w.1 + b.1)
}


// ---------------------------------------------------------------- mobility and activity

/// The squares that the enemy pawns attack.
pub open spec fn enemy_pawn_attacks(b: Board, color: Color) -> u64 {
    pawn_attacks_by(color.opposite(), b.pieces[color.opposite().idx()][0])
}

/// The squares a piece of kind `kind` on `s` reaches that hold no own piece and that
/// no enemy pawn attacks.
pub open spec fn safe_mobility(b: Board, color: Color, kind: int, s: int) -> int {
    popcount(attack_set(kind, s, b.occ_all) & !b.occ[color.idx()] & !enemy_pawn_attacks(b, color))
        as int
}

pub open spec fn capped(n: int, cap: int) -> int {
    if n < cap {
        n
    } else {
        cap
    }
}

/// The (mg, eg) mobility value of a piece of kind `kind` reaching `n` squares.
pub open spec fn mobility_entry(kind: int, n: int) -> (int, int) {
    if kind == 1 {
        let e = KNIGHT_MOBILITY[capped(n, 8)];
        (e.0 as int, e.1 as int)
    } else if kind == 2 {
        let e = BISHOP_MOBILITY[capped(n, 13)];
        (e.0 as int, e.1 as int)
    } else if kind == 3 {
        let e = ROOK_MOBILITY[capped(n, 14)];
        (e.0 as int, e.1 as int)
    } else {
        let e = QUEEN_MOBILITY[capped(n, 27)];
        (e.0 as int, e.1 as int)
    }
}

pub proof fn lemma_mobility_entry_bounds(kind: int, n: int)
    requires
        1 <= kind <= 4,
        0 <= n,
    ensures
        -20 <= mobility_entry(kind, n).0 <= 28,
        -10 <= mobility_entry(kind, n).1 <= 25,
{
    if kind == 1 {
        let i = capped(n, 8);
        assert(i == 0 || i == 1 || i == 2 || i == 3 || i == 4 || i == 5 || i == 6 || i == 7 || i == 8);
    } else if kind == 2 {
        let i = capped(n, 13);
        assert(i == 0 || i == 1 || i == 2 || i == 3 || i == 4 || i == 5 || i == 6 || i == 7 || i == 8
            || i == 9 || i == 10 || i == 11 || i == 12 || i == 13);
    } else if kind == 3 {
        let i = capped(n, 14);
        assert(i == 0 || i == 1 || i == 2 || i == 3 || i == 4 || i == 5 || i == 6 || i == 7 || i == 8
            || i == 9 || i == 10 || i == 11 || i == 12 || i == 13 || i == 14);
    } else {
        let i = capped(n, 27);
        assert(i == 0 || i == 1 || i == 2 || i == 3 || i == 4 || i == 5 || i == 6 || i == 7 || i == 8
            || i == 9 || i == 10 || i == 11 || i == 12 || i == 13 || i == 14 || i == 15 || i == 16
            || i == 17 || i == 18 || i == 19 || i == 20 || i == 21 || i == 22 || i == 23 || i == 24
            || i == 25 || i == 26 || i == 27);
    }
}

/// The outpost bonus of a knight of `color` on `s`: nothing where an enemy pawn
/// attacks it or outside its ranks 4 to 6; more with an own pawn defending it.
pub open spec fn outpost_value(b: Board, color: Color, s: int, their_att: u64) -> int {
    let r = rank_of(s);
    if bit(their_att, s) {
        0
    } else if !(if color == Color::White {
        3 <= r <= 5
    } else {
        2 <= r <= 4
    }) {
        0
    } else if bit(pawn_attacks_by(color, b.pieces[color.idx()][0]), s) {
        OUTPOST_SUPPORTED as int
    } else {
        OUTPOST_UNSUPPORTED as int
    }
}

/// A supported outpost outscores an unsupported one: on an outpost square, the
/// bonus with an own pawn defending it is larger than without, and both are positive.
pub proof fn lemma_supported_outpost_outscores(b: Board, b2: Board, color: Color, s: int, their_att: u64)
    requires
        outpost_value(b, color, s, their_att) != 0,
        bit(pawn_attacks_by(color, b.pieces[color.idx()][0]), s),
        !bit(pawn_attacks_by(color, b2.pieces[color.idx()][0]), s),
    ensures
        outpost_value(b, color, s, their_att) > outpost_value(b2, color, s, their_att) > 0,
{
}

pub fn outpost_bonus(sq: Square, color: Color, their_pawn_attacks: Bb, board: &Board) -> (r: i32)
    requires
        sq < 64,
    ensures
        r == outpost_value(*board, color, sq as int, their_pawn_attacks),
{
    proof {
        lemma_and_single(their_pawn_attacks, sq as int);
    }
    if their_pawn_attacks & bb(sq) != 0 {
        return 0;
    }
    let r = sq_rank(sq);
    let in_outpost_zone = if color == Color::White {
        3 <= r && r <= 5
    } else {
        2 <= r && r <= 4
    };
    if !in_outpost_zone {
        return 0;
    }
    let our_pawn_attacks = pawn_attacks_of(color, board.pieces[color.index()][0]);
    proof {
        lemma_and_single(our_pawn_attacks, sq as int);
    }
    if our_pawn_attacks & bb(sq) != 0 {
        OUTPOST_SUPPORTED
    } else {
        OUTPOST_UNSUPPORTED
    }
}

/// The (mg, eg) activity of a piece of kind `kind` and `color` on `s`: its mobility,
/// for a knight its outpost, for a rook its file and its seventh rank.
pub open spec fn activity_term(b: Board, color: Color, kind: int, s: int) -> (int, int) {
    let e = mobility_entry(kind, safe_mobility(b, color, kind, s));
    if kind == 1 {
        (e.0 + outpost_value(b, color, s, enemy_pawn_attacks(b, color)), e.1)
    } else if kind == 3 {
        let fv = rook_file_value(
            BB_FILES[file_of(s)],
            b.pieces[color.idx()][0],
            b.pieces[color.opposite().idx()][0],
        );
        let seventh = rank_of(s) == (if color == Color::White {
            6int
        } else {
            1int
        });
        (
            e.0 + fv.0 + (if seventh {
                20int
            } else {
                0
            }),
            e.1 + fv.1 + (if seventh {
                30int
            } else {
                0
            }),
        )
    } else {
        e
    }
}

pub open spec fn activity_mg(b: Board, color: Color, kind: int) -> spec_fn(int) -> int {
    |s: int| activity_term(b, color, kind, s).0
}

pub open spec fn activity_eg(b: Board, color: Color, kind: int) -> spec_fn(int) -> int {
    |s: int| activity_term(b, color, kind, s).1
}

/// The summed activity of the pieces of one kind of `color`.
pub open spec fn kind_activity(b: Board, color: Color, kind: int) -> (int, int) {
    let sqs = squares_of(b.pieces[color.idx()][kind]);
    (sum_over(sqs, activity_mg(b, color, kind)), sum_over(sqs, activity_eg(b, color, kind)))
}

/// The mobility and activity of one side, signed for the color, with the bishop pair.
pub open spec fn activity_side_value(b: Board, color: Color) -> (int, int) {
    let n = kind_activity(b, color, 1);
    let bi = kind_activity(b, color, 2);
    let ro = kind_activity(b, color, 3);
    let q = kind_activity(b, color, 4);
    let pair = popcount(b.pieces[color.idx()][2]) >= 2;
    let s = sign_of(color);
    (
        s * (n.0 + bi.0 + ro.0 + q.0 + (if pair {
            30int
        } else {
            0
        })),
        s * (n.1 + bi.1 + ro.1 + q.1 + (if pair {
            50int
        } else {
            0
        })),
    )
}

/// The mobility and activity balance, white plus black.
pub open spec fn mobility_activity_value(b: Board) -> (int, int) {
    let w = activity_side_value(b, Color::White);
    let k = activity_side_value(b, Color::Black);
    (w.0 + k.0, w.1 + k.1)
}

/// The activity of one piece.
fn activity_at(board: &Board, atk: &AttackTables, color: Color, kind: u8, sq: Square, their_pawn_attacks: Bb) -> (r: (i32, i32))
    requires
        atk.wf(),
        1 <= kind <= 4,
        sq < 64,
        their_pawn_attacks == enemy_pawn_attacks(*board, color),
    ensures
        (r.0 as int, r.1 as int) == activity_term(*board, color, kind as int, sq as int),
        -20 <= r.0 <= 64,
        -10 <= r.1 <= 64,
{
    let ci = color.index();
    let attacks = piece_attack_set(atk, kind, sq, board.occ_all);
    let reach = attacks & !board.occ[ci] & !their_pawn_attacks;
    let m = bb_popcount(reach);
    proof {
        lemma_popcount_bound(reach);
        lemma_mobility_entry_bounds(kind as int, m as int);
    }
    let mob = m as usize;
    if kind == 1 {
        let mob = if mob < 8 {
            mob
        } else {
            8
        };
        let e = KNIGHT_MOBILITY[mob];
        let o = outpost_bonus(sq, color, their_pawn_attacks, board);
        (e.0 + o, e.1)
    } else if kind == 2 {
        let mob = if mob < 13 {
            mob
        } else {
            13
        };
        BISHOP_MOBILITY[mob]
    } else if kind == 3 {
        let mob = if mob < 14 {
            mob
        } else {
            14
        };
        let e = ROOK_MOBILITY[mob];
        let file_bb = BB_FILES[sq_file(sq) as usize];
        let our_pawns = board.pieces[ci][0];
        let their_pawns = board.pieces[color.flip().index()][0];
        let (rk_mg, rk_eg) = rook_file_bonus(file_bb, our_pawns, their_pawns);
        let seventh_rank = if color == Color::White {
            BB_RANK_7
        } else {
            BB_RANK_2
        };
        proof {
            lemma_and_single(seventh_rank, sq as int);
            lemma_file_rank_masks(sq as int);
            assert(BB_RANK_7 == crate::types::BB_RANKS[6]);
            assert(BB_RANK_2 == crate::types::BB_RANKS[1]);
        }
        if seventh_rank & bb(sq) != 0 {
            (e.0 + rk_mg + ROOK_ON_SEVENTH_BONUS.0, e.1 + rk_eg + ROOK_ON_SEVENTH_BONUS.1)
        } else {
            (e.0 + rk_mg, e.1 + rk_eg)
        }
    } else {
        let mob = if mob < 27 {
            mob
        } else {
            27
        };
        QUEEN_MOBILITY[mob]
    }
}

/// The activity of the pieces of one kind.
fn activity_of_kind(board: &Board, atk: &AttackTables, color: Color, kind: u8, their_pawn_attacks: Bb) -> (r: (i32, i32))
    requires
        atk.wf(),
        1 <= kind <= 4,
        their_pawn_attacks == enemy_pawn_attacks(*board, color),
    ensures
        (r.0 as int, r.1 as int) == kind_activity(*board, color, kind as int),
        -4096 <= r.0 <= 4096,
        -4096 <= r.1 <= 4096,
{
    let pieces = board.pieces[color.index()][kind as usize];
    let mut rest = pieces;
    let mut mg: i32 = 0;
    let mut eg: i32 = 0;
    proof {
        lemma_squares_in_range(pieces);
    }
    let ghost all = squares_of(pieces);
    let ghost fm = activity_mg(*board, color, kind as int);
    let ghost fe = activity_eg(*board, color, kind as int);
    while rest != 0
        invariant
            atk.wf(),
            1 <= kind <= 4,
            their_pawn_attacks == enemy_pawn_attacks(*board, color),
            fm == activity_mg(*board, color, kind as int),
            fe == activity_eg(*board, color, kind as int),
            all == squares_of(pieces),
            all.len() <= 64,
            squares_of(rest).len() <= all.len(),
            mg + sum_over(squares_of(rest), fm) == sum_over(all, fm),
            eg + sum_over(squares_of(rest), fe) == sum_over(all, fe),
            -64 * (all.len() - squares_of(rest).len()) <= mg <= 64 * (all.len() - squares_of(rest).len()),
            -64 * (all.len() - squares_of(rest).len()) <= eg <= 64 * (all.len() - squares_of(rest).len()),
        decreases squares_of(rest).len(),
    {
        let sq = bb_pop_lsb(&mut rest);
        let (m, e) = activity_at(board, atk, color, kind, sq, their_pawn_attacks);
        mg = mg + m;
        eg = eg + e;
    }
    proof {
        lemma_squares_of_zero();
    }
    (mg, eg)
}

/// The mobility and activity of one side.
fn activity_side(board: &Board, atk: &AttackTables, color: Color) -> (r: (i32, i32))
    requires
        atk.wf(),
    ensures
        (r.0 as int, r.1 as int) == activity_side_value(*board, color),
        -16434 <= r.0 <= 16434,
        -16434 <= r.1 <= 16434,
{
    let ci = color.index();
    let their_pawn_attacks = pawn_attacks_of(color.flip(), board.pieces[color.flip().index()][0]);
    let n = activity_of_kind(board, atk, color, 1, their_pawn_attacks);
    let bi = activity_of_kind(board, atk, color, 2, their_pawn_attacks);
    let ro = activity_of_kind(board, atk, color, 3, their_pawn_attacks);
    let q = activity_of_kind(board, atk, color, 4, their_pawn_attacks);
    // Bishop pair
    let (pair_mg, pair_eg) = if bb_popcount(board.pieces[ci][2]) >= 2 {
        (BISHOP_PAIR_BONUS.0, BISHOP_PAIR_BONUS.1)
    } else {
        (0, 0)
    };
    let mg = n.0 + bi.0 + ro.0 + q.0 + pair_mg;
    let eg = n.1 + bi.1 + ro.1 + q.1 + pair_eg;
    if color == Color::White {
        (mg, eg)
    } else {
        (-mg, -eg)
    }
}

/// The mobility and activity terms, white plus black.
pub fn mobility_and_activity(board: &Board, ctx: &EvalContext) -> (r: (i32, i32))
    requires
        ctx.atk.wf(),
    ensures
        (r.0 as int, r.1 as int) == mobility_activity_value(*board),
        -32868 <= r.0 <= 32868,
        -32868 <= r.1 <= 32868,
{
    let w = activity_side(board, ctx.atk, Color::White);
    let b = activity_side(board, ctx.atk, Color::Black);
    (w.0 + b.0, w.1 + b.1)
}

// ---------------------------------------------------------------- raw mobility

/// The pawn moves of `color`: single and double pushes to empty squares and
/// captures of enemy pieces.
pub open spec fn pawn_mobility(b: Board, color: Color) -> int {
    let p = b.pieces[color.idx()][0];
    let occ = b.occ_all;
    let them = b.occ[color.opposite().idx()];
    if color == Color::White {
        (popcount((p << 8u64) & !occ) + popcount(((((p << 8u64) & !occ) & BB_RANK_3) << 8u64) & !occ)
            + popcount((p << 9u64) & !BB_FILE_A & them) + popcount((p << 7u64) & !BB_FILE_H & them)) as int
    } else {
        (popcount((p >> 8u64) & !occ) + popcount(((((p >> 8u64) & !occ) & BB_RANK_6) >> 8u64) & !occ)
            + popcount((p >> 7u64) & !BB_FILE_A & them) + popcount((p >> 9u64) & !BB_FILE_H & them)) as int
    }
}

pub open spec fn reach_count(b: Board, color: Color, kind: int) -> spec_fn(int) -> int {
    |s: int| popcount(attack_set(kind, s, b.occ_all) & !b.occ[color.idx()]) as int
}

/// The squares the pieces of one kind of `color` reach that hold no own piece.
pub open spec fn kind_mobility(b: Board, color: Color, kind: int) -> int {
    sum_over(squares_of(b.pieces[color.idx()][kind]), reach_count(b, color, kind))
}

/// The pseudo-legal mobility of one side: pawn moves, the reach of the knights,
/// bishops, rooks and queens, and the king's.
pub open spec fn side_mobility_value(b: Board, color: Color) -> int {
    let k = b.king_sq[color.idx()];
    pawn_mobility(b, color) + kind_mobility(b, color, 1) + kind_mobility(b, color, 2)
        + kind_mobility(b, color, 3) + kind_mobility(b, color, 4) + (if k != NO_SQUARE {
        popcount(king_set(k as int) & !b.occ[color.idx()]) as int
    } else {
        0
    })
}

fn pawn_moves_count(board: &Board, color: Color) -> (n: u32)
    ensures
        n == pawn_mobility(*board, color),
        n <= 256,
{
    let ci = color.index();
    let oi = color.flip().index();
    let occ = board.occ_all;
    let pawns = board.pieces[ci][0];
    let them = board.occ[oi];
    let (a, b, c, d) = if color == Color::White {
        (
            (pawns << 8) & !occ,
            (((pawns << 8) & !occ & BB_RANK_3) << 8) & !occ,
            (pawns << 9) & !BB_FILE_A & them,
            (pawns << 7) & !BB_FILE_H & them,
        )
    } else {
        (
            (pawns >> 8) & !occ,
            (((pawns >> 8) & !occ & BB_RANK_6) >> 8) & !occ,
            (pawns >> 7) & !BB_FILE_A & them,
            (pawns >> 9) & !BB_FILE_H & them,
        )
    };
    proof {
        lemma_popcount_bound(a);
        lemma_popcount_bound(b);
        lemma_popcount_bound(c);
        lemma_popcount_bound(d);
    }
    bb_popcount(a) + bb_popcount(b) + bb_popcount(c) + bb_popcount(d)
}

fn mobility_of_kind(board: &Board, atk: &AttackTables, color: Color, kind: u8) -> (n: u32)
    requires
        atk.wf(),
        1 <= kind <= 4,
    ensures
        n == kind_mobility(*board, color, kind as int),
        n <= 4096,
{
    let our_occ = board.occ[color.index()];
    let pieces = board.pieces[color.index()][kind as usize];
    let mut rest = pieces;
    let mut n: u32 = 0;
    proof {
        lemma_squares_in_range(pieces);
    }
    let ghost all = squares_of(pieces);
    let ghost f = reach_count(*board, color, kind as int);
    while rest != 0
        invariant
            atk.wf(),
            1 <= kind <= 4,
            our_occ == board.occ[color.idx()],
            f == reach_count(*board, color, kind as int),
            all == squares_of(pieces),
            all.len() <= 64,
            squares_of(rest).len() <= all.len(),
            n + sum_over(squares_of(rest), f) == sum_over(all, f),
            n <= 64 * (all.len() - squares_of(rest).len()),
        decreases squares_of(rest).len(),
    {
        let sq = bb_pop_lsb(&mut rest);
        let reach = piece_attack_set(atk, kind, sq, board.occ_all) & !our_occ;
        proof {
            lemma_popcount_bound(reach);
        }
        n = n + bb_popcount(reach);
    }
    proof {
        lemma_squares_of_zero();
    }
    n
}

/// Total pseudo-legal mobility for one side (pawns incl. pushes/captures, pieces, king).
pub fn side_mobility(board: &Board, ctx: &EvalContext, color: Color) -> (n: u32)
    requires
        board.consistent(),
        ctx.atk.wf(),
    ensures
        n == side_mobility_value(*board, color),
        n <= 16704,
{
    let ci = color.index();
    let mut mobility = pawn_moves_count(board, color);
    mobility = mobility + mobility_of_kind(board, ctx.atk, color, 1);
    mobility = mobility + mobility_of_kind(board, ctx.atk, color, 2);
    mobility = mobility + mobility_of_kind(board, ctx.atk, color, 3);
    mobility = mobility + mobility_of_kind(board, ctx.atk, color, 4);
    // King
    let king_sq = board.king_sq[ci];
    if king_sq != NO_SQUARE {
        let reach = piece_attack_set(ctx.atk, 5, king_sq, board.occ_all) & !board.occ[ci];
        proof {
            lemma_popcount_bound(reach);
        }
        mobility = mobility + bb_popcount(reach);
    }
    mobility
}

} // verus!
