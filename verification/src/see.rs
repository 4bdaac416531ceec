use vstd::prelude::*;
use crate::attacks::{bishop_reach, pawn_attacks_black, pawn_attacks_white, rook_reach};
use crate::bitboard::{bb, bb_lsb, squares_of};
use crate::board::{Board, type_idx};
use crate::magic::AttackTables;
use crate::makemove::ep_capture_square;
use crate::movegen::{king_set, knight_set, lemma_leaper_sets};
use crate::types::{Bb, Color, Move, PieceType, Square, BB_FILE_A, BB_FILE_H, MF_EN_PASSANT, MF_PROMOTION, MOVE_NONE, PIECE_NONE, color_of_piece, file_of, flags_of, from_of, material_of, move_flags, move_from, move_promo_pt, move_to, piece_color, piece_type, piece_type_of_index, promo_of, sq_file, to_of};

verus! {

/// The twelve bitboards `[color][type]` as one sequence, at `color * 6 + type`.
pub open spec fn flat(p: [[u64; 6]; 2]) -> Seq<u64> {
    Seq::new(
        12,
        |k: int|
            if k < 6 {
                p[0][k]
            } else {
                p[1][k - 6]
            },
    )
}

proof fn lemma_flat_set(p: [[u64; 6]; 2], q: [[u64; 6]; 2], c: int, t: int)
    requires
        0 <= c < 2,
        0 <= t < 6,
        forall|i: int, j: int|
            0 <= i < 2 && 0 <= j < 6 && !(i == c && j == t) ==> #[trigger] q[i][j] == p[i][j],
    ensures
        flat(q) == flat(p).update(c * 6 + t, q[c][t]),
{
    assert(flat(q) =~= flat(p).update(c * 6 + t, q[c][t]));
}

/// The squares from which a pawn of `color` attacks `target`.
pub open spec fn pawn_attacker_squares(target: int, color: Color) -> u64 {
    let tb = 1u64 << (target as u64);
    if color == Color::White {
        ((tb >> 7u64) & !BB_FILE_A) | ((tb >> 9u64) & !BB_FILE_H)
    } else {
        ((tb << 9u64) & !BB_FILE_A) | ((tb << 7u64) & !BB_FILE_H)
    }
}

/// The pieces of `color` among `pcs` that attack `target` with occupancy `occ`.
pub open spec fn attackers_of(pcs: Seq<u64>, target: int, color: Color, occ: u64) -> u64 {
    let c = color.idx() * 6;
    (pawn_attacker_squares(target, color) & pcs[c]) | (knight_set(target) & pcs[c + 1]) | (
    bishop_reach(target, occ) & (pcs[c + 2] | pcs[c + 4])) | (rook_reach(target, occ) & (pcs[c
        + 3] | pcs[c + 4])) | (king_set(target) & pcs[c + 5])
}

/// The pieces of `color` that attack `target`.
pub fn attackers_to(
    target: Square,
    color: Color,
    occ: Bb,
    pieces: &[[Bb; 6]; 2],
    atk: &AttackTables,
) -> (r: Bb)
    requires
        atk.wf(),
        target < 64,
    ensures
        r == attackers_of(flat(*pieces), target as int, color, occ),
{
    let ci = color.index();
    let target_bb = bb(target);
    let pawn_attackers = if color == Color::White {
        pawn_attacks_black(target_bb)
    } else {
        pawn_attacks_white(target_bb)
    } & pieces[ci][0];
    proof {
        lemma_leaper_sets(atk, target as int);
    }
    let knight_attackers = atk.knight[target as usize] & pieces[ci][1];
    let bishop_attackers = atk.bishop_attacks(target, occ) & (pieces[ci][2] | pieces[ci][4]);
    let rook_attackers = atk.rook_attacks(target, occ) & (pieces[ci][3] | pieces[ci][4]);
    let king_attackers = atk.king[target as usize] & pieces[ci][5];
    pawn_attackers | knight_attackers | bishop_attackers | rook_attackers | king_attackers
}

/// `pcs[c * 6] | .. | pcs[c * 6 + n - 1]`, folded from zero.
pub open spec fn color_fold(pcs: Seq<u64>, c: int, n: int) -> u64
    decreases n,
{
    if n <= 0 {
        0
    } else {
        color_fold(pcs, c, n - 1) | pcs[c * 6 + n - 1]
    }
}

/// All pieces of one color.
pub fn color_occupancy(pieces: &[[Bb; 6]; 2], color: Color) -> (r: Bb)
    ensures
        r == color_fold(flat(*pieces), color.idx(), 6),
{
    let ci = color.index();
    let mut occ: Bb = 0;
    let mut pt: usize = 0;
    while pt < 6
        invariant
            ci == color.idx(),
            pt <= 6,
            occ == color_fold(flat(*pieces), ci as int, pt as int),
        decreases 6 - pt,
    {
        occ = occ | pieces[ci][pt];
        pt += 1;
    }
    occ
}

/// The first piece type from `pt` on whose bitboard of color `c` meets `attackers`.
pub open spec fn first_attacker_type(attackers: u64, pcs: Seq<u64>, c: int, pt: int) -> Option<int>
    decreases 6 - pt,
{
    if pt >= 6 || pt < 0 {
        None
    } else if attackers & pcs[c * 6 + pt] != 0 {
        Some(pt)
    } else {
        first_attacker_type(attackers, pcs, c, pt + 1)
    }
}

/// The least valuable attacker of `target` of `color`: its type (pawn first, king
/// last) and its lowest square.
pub open spec fn lva(pcs: Seq<u64>, target: int, color: Color, occ: u64) -> Option<(int, int)> {
    let a = attackers_of(pcs, target, color, occ);
    if a == 0 {
        None
    } else {
        match first_attacker_type(a, pcs, color.idx(), 0) {
            None => None,
            Some(pt) => Some((squares_of(a & pcs[color.idx() * 6 + pt])[0], pt)),
        }
    }
}

pub fn least_valuable_attacker(
    target: Square,
    color: Color,
    occ: Bb,
    pieces: &[[Bb; 6]; 2],
    atk: &AttackTables,
) -> (r: Option<(Square, PieceType)>)
    requires
        atk.wf(),
        target < 64,
    ensures
        match r {
            Some((s, pt)) => lva(flat(*pieces), target as int, color, occ) == Some(
                (s as int, pt.idx()),
            ) && s < 64 && pt.idx() < 6,
            None => lva(flat(*pieces), target as int, color, occ) is None,
        },
{
    let attackers = attackers_to(target, color, occ, pieces, atk);
    if attackers == 0 {
        return None;
    }
    let ci = color.index();
    let mut pt: u8 = 0;
    while pt < 6
        invariant
            ci == color.idx(),
            pt <= 6,
            attackers == attackers_of(flat(*pieces), target as int, color, occ),
            attackers != 0,
            first_attacker_type(attackers, flat(*pieces), ci as int, 0) == first_attacker_type(
                attackers,
                flat(*pieces),
                ci as int,
                pt as int,
            ),
        decreases 6 - pt,
    {
        let b = attackers & pieces[ci][pt as usize];
        proof {
            assert(flat(*pieces)[ci * 6 + pt] == pieces[ci as int][pt as int]);
        }
        if b != 0 {
            let sq = bb_lsb(b);
            let t = PieceType::from_u8(pt);
            return Some((sq, t));
        }
        pt += 1;
    }
    None
}

/// The piece of the capture on `to`: the victim leaves, the attacker leaves its
/// square and stands on `to`.
pub open spec fn capture_step(
    pcs: Seq<u64>,
    occ: u64,
    to: int,
    side: Color,
    victim: int,
    asq: int,
    at: int,
) -> (Seq<u64>, u64) {
    let tb = 1u64 << (to as u64);
    let ab = 1u64 << (asq as u64);
    let k = side.idx() * 6 + at;
    let p1 = pcs.update(victim, pcs[victim] & !tb);
    let p2 = p1.update(k, p1[k] & !ab);
    (p2.update(k, p2[k] | tb), occ & !ab)
}

/// The values of the pieces taken on `to` as the sides recapture in turn, each with
/// its least valuable attacker, `side` first; a king does not recapture into an
/// attacked square; at most `fuel` captures.
pub open spec fn exchange_values(
    pcs: Seq<u64>,
    occ: u64,
    to: int,
    side: Color,
    victim: int,
    victim_value: int,
    fuel: nat,
) -> Seq<int>
    decreases fuel,
{
    if fuel == 0 {
        Seq::empty()
    } else {
        match lva(pcs, to, side, occ) {
            None => Seq::empty(),
            Some((asq, at)) => {
                let (p1, o1) = capture_step(pcs, occ, to, side, victim, asq, at);
                let them = side.opposite();
                if at == 5 && attackers_of(p1, to, them, o1) & color_fold(p1, them.idx(), 6) != 0 {
                    Seq::empty()
                } else {
                    seq![victim_value] + exchange_values(
                        p1,
                        o1,
                        to,
                        them,
                        side.idx() * 6 + at,
                        material_of(piece_type_of_index(at)),
                        (fuel - 1) as nat,
                    )
                }
            },
        }
    }
}

/// The value of the recaptures from `i` on for the side to take: each side takes
/// only when it gains.
pub open spec fn see_negamax(vs: Seq<int>, i: int) -> int
    decreases vs.len() - i,
{
    if i >= vs.len() || i < 0 {
        0
    } else {
        let rest = see_negamax(vs, i + 1);
        if vs[i] - rest > 0 {
            vs[i] - rest
        } else {
            0
        }
    }
}

/// The value of what a move takes: an en passant pawn, or the piece on its target.
pub open spec fn captured_value(b: Board, m: Move) -> int {
    if flags_of(m) == MF_EN_PASSANT {
        100
    } else if b.sq_piece[to_of(m) as int] == PIECE_NONE {
        0
    } else {
        material_of(piece_type_of_index(type_idx(b.sq_piece[to_of(m) as int])))
    }
}

/// The type that stands on the target after the move.
pub open spec fn moved_type(b: Board, m: Move) -> int {
    if flags_of(m) == MF_PROMOTION {
        promo_of(m).idx()
    } else {
        type_idx(b.sq_piece[from_of(m) as int])
    }
}

/// The bitboards and occupancy once the move is made.
pub open spec fn see_start(b: Board, m: Move) -> (Seq<u64>, u64) {
    let from = from_of(m) as int;
    let to = to_of(m) as int;
    let us = b.side.idx();
    let fb = 1u64 << (from as u64);
    let tb = 1u64 << (to as u64);
    let mk = us * 6 + type_idx(b.sq_piece[from]);
    let p0 = flat(b.pieces);
    let p1 = p0.update(mk, p0[mk] & !fb);
    let o1 = b.occ_all & !fb;
    let (p2, o2) = if flags_of(m) == MF_EN_PASSANT {
        let cb = 1u64 << (ep_capture_square(b.side, to) as u64);
        let vk = (1 - us) * 6;
        (p1.update(vk, p1[vk] & !cb), o1 & !cb)
    } else {
        let cap = b.sq_piece[to];
        (if cap != PIECE_NONE {
            p1.update(cap as int, p1[cap as int] & !tb)
        } else {
            p1
        }, o1 & !tb)
    };
    let nk = us * 6 + moved_type(b, m);
    (p2.update(nk, p2[nk] | tb), o2 | tb)
}

/// The static exchange value of a move for its side: what it takes (and gains by
/// promoting) minus what the opponent then wins back on the target square.
pub open spec fn see_value(b: Board, m: Move) -> int {
    if m == MOVE_NONE || b.sq_piece[from_of(m) as int] == PIECE_NONE {
        0
    } else {
        let gain0 = captured_value(b, m) + if flags_of(m) == MF_PROMOTION {
            material_of(promo_of(m)) - 100
        } else {
            0
        };
        let (p, o) = see_start(b, m);
        let mt = moved_type(b, m);
        let vs = exchange_values(
            p,
            o,
            to_of(m) as int,
            b.side.opposite(),
            b.side.idx() * 6 + mt,
            material_of(piece_type_of_index(mt)),
            31,
        );
        gain0 - see_negamax(vs, 0)
    }
}

/// The en passant square of a move names a capturable square.
pub open spec fn see_move_ok(b: Board, m: Move) -> bool {
    flags_of(m) == MF_EN_PASSANT ==> 0 <= ep_capture_square(b.side, to_of(m) as int) < 64
}

pub fn captured_value_for_see(board: &Board, m: Move) -> (v: i32)
    requires
        board.consistent(),
    ensures
        v == captured_value(*board, m),
        0 <= v <= 900,
{
    if move_flags(m) == MF_EN_PASSANT {
        return PieceType::Pawn.material_value();
    }
    let captured = board.sq_piece[move_to(m) as usize];
    if captured == PIECE_NONE {
        return 0;
    }
    piece_type(captured).material_value()
}


proof fn lemma_negamax_bounds(vs: Seq<int>, i: int)
    requires
        forall|k: int| 0 <= k < vs.len() ==> 0 <= #[trigger] vs[k] <= 900,
    ensures
        0 <= see_negamax(vs, i) <= 900,
    decreases vs.len() - i,
{
    if 0 <= i < vs.len() {
        lemma_negamax_bounds(vs, i + 1);
    }
}

/// Makes the capture on `to` in the working bitboards.
fn apply_capture(
    pieces: &mut [[Bb; 6]; 2],
    occ: &mut Bb,
    to: Square,
    victim_side: Color,
    victim_type: PieceType,
    side: Color,
    attacker_sq: Square,
    attacker_type: PieceType,
)
    requires
        to < 64,
        attacker_sq < 64,
        victim_type.idx() < 6,
        attacker_type.idx() < 6,
    ensures
        (flat(*final(pieces)), *final(occ)) == capture_step(
            flat(*old(pieces)),
            *old(occ),
            to as int,
            side,
            victim_side.idx() * 6 + victim_type.idx(),
            attacker_sq as int,
            attacker_type.idx(),
        ),
{
    let target_bb = bb(to);
    let attacker_bb = bb(attacker_sq);
    let vsi = victim_side.index();
    let vt = victim_type.index();
    let ghost q0 = *pieces;
    pieces[vsi][vt] = pieces[vsi][vt] & !target_bb;
    proof {
        lemma_flat_set(q0, *pieces, vsi as int, vt as int);
    }
    let si = side.index();
    let at = attacker_type.index();
    let ghost q1 = *pieces;
    pieces[si][at] = pieces[si][at] & !attacker_bb;
    proof {
        lemma_flat_set(q1, *pieces, si as int, at as int);
    }
    let ghost q2 = *pieces;
    pieces[si][at] = pieces[si][at] | target_bb;
    proof {
        lemma_flat_set(q2, *pieces, si as int, at as int);
    }
    *occ = *occ & !attacker_bb;
}

/// The working bitboards and occupancy once the move is made.
fn see_start_state(board: &Board, m: Move) -> (r: ([[Bb; 6]; 2], Bb))
    requires
        board.consistent(),
        see_move_ok(*board, m),
        board.sq_piece[from_of(m) as int] != PIECE_NONE,
    ensures
        (flat(r.0), r.1) == see_start(*board, m),
{
    let from = move_from(m);
    let to = move_to(m);
    let flags = move_flags(m);
    let mover = board.sq_piece[from as usize];
    let moving_side = board.side;
    let mover_type = piece_type(mover);
    let moved_type = if flags == MF_PROMOTION {
        move_promo_pt(m)
    } else {
        mover_type
    };
    let mut pieces = board.pieces;
    let mut occ = board.occ_all;
    let ms = moving_side.index();
    let mt = mover_type.index();
    let ghost p0 = pieces;
    pieces[ms][mt] = pieces[ms][mt] & !bb(from);
    proof {
        lemma_flat_set(p0, pieces, ms as int, mt as int);
    }
    occ = occ & !bb(from);
    if flags == MF_EN_PASSANT {
        let cap_sq = if moving_side == Color::White {
            to - 8
        } else {
            to + 8
        };
        let ts = moving_side.flip().index();
        let ghost p1 = pieces;
        pieces[ts][0] = pieces[ts][0] & !bb(cap_sq);
        proof {
            lemma_flat_set(p1, pieces, ts as int, 0);
        }
        occ = occ & !bb(cap_sq);
    } else {
        let captured = board.sq_piece[to as usize];
        if captured != PIECE_NONE {
            let cc = piece_color(captured).index();
            let ct = piece_type(captured).index();
            let ghost p1 = pieces;
            pieces[cc][ct] = pieces[cc][ct] & !bb(to);
            proof {
                lemma_flat_set(p1, pieces, cc as int, ct as int);
            }
        }
        occ = occ & !bb(to);
    }
    let nt = moved_type.index();
    let ghost p2 = pieces;
    pieces[ms][nt] = pieces[ms][nt] | bb(to);
    proof {
        lemma_flat_set(p2, pieces, ms as int, nt as int);
    }
    occ = occ | bb(to);
    (pieces, occ)
}

/// The swap list of the exchange on `to`: `gain[0]` is `gain0`, and each recorded
/// capture's entry is the victim's value minus the entry before.
#[verifier::spinoff_prover]
#[verifier::rlimit(50)]
fn exchange_gains(
    pieces: [[Bb; 6]; 2],
    occ: Bb,
    to: Square,
    side: Color,
    victim_side: Color,
    victim_type: PieceType,
    gain0: i32,
    atk: &AttackTables,
) -> (r: ([i32; 32], usize))
    requires
        atk.wf(),
        to < 64,
        victim_type.idx() < 6,
        -1700 <= gain0 <= 1700,
    ensures
        ({
            let vs = exchange_values(
                flat(pieces),
                occ,
                to as int,
                side,
                victim_side.idx() * 6 + victim_type.idx(),
                material_of(victim_type),
                31,
            );
            &&& r.1 == vs.len()
            &&& r.1 <= 31
            &&& r.0[0] == gain0
            &&& forall|k: int| 0 <= k < r.1 ==> #[trigger] r.0[k + 1] == vs[k] - r.0[k]
            &&& forall|k: int| 0 <= k <= r.1 ==> -1700 - 900 * k <= #[trigger] r.0[k] <= 1700 + 900 * k
            &&& forall|k: int| 0 <= k < vs.len() ==> 0 <= #[trigger] vs[k] <= 900
        }),
{
    let mut pieces = pieces;
    let mut occ = occ;
    let mut side = side;
    let mut victim_side = victim_side;
    let mut victim_type = victim_type;
    let mut victim_value = victim_type.material_value();
    let mut gain = [0i32; 32];
    gain[0] = gain0;
    let mut depth: usize = 0;
    let ghost vs_total = exchange_values(
        flat(pieces),
        occ,
        to as int,
        side,
        victim_side.idx() * 6 + victim_type.idx(),
        victim_value as int,
        31,
    );
    let ghost mut vs: Seq<int> = Seq::empty();
    proof {
        assert(victim_type == piece_type_of_index(victim_type.idx()));
    }
    while depth + 1 < 32
        invariant_except_break
            atk.wf(),
            to < 64,
            depth <= 31,
            vs.len() == depth,
            victim_type.idx() < 6,
            victim_value == material_of(victim_type),
            victim_type == piece_type_of_index(victim_type.idx()),
            vs + exchange_values(
                flat(pieces),
                occ,
                to as int,
                side,
                victim_side.idx() * 6 + victim_type.idx(),
                victim_value as int,
                (31 - depth) as nat,
            ) == vs_total,
            gain[0] == gain0,
            forall|k: int| 0 <= k < depth ==> #[trigger] gain[k + 1] == vs[k] - gain[k],
            forall|k: int| 0 <= k <= depth ==> -1700 - 900 * k <= #[trigger] gain[k] <= 1700 + 900 * k,
            forall|k: int| 0 <= k < vs.len() ==> 0 <= #[trigger] vs[k] <= 900,
        ensures
            depth <= 31,
            vs == vs_total,
            vs.len() == depth,
            gain[0] == gain0,
            forall|k: int| 0 <= k < depth ==> #[trigger] gain[k + 1] == vs[k] - gain[k],
            forall|k: int| 0 <= k <= depth ==> -1700 - 900 * k <= #[trigger] gain[k] <= 1700 + 900 * k,
            forall|k: int| 0 <= k < vs.len() ==> 0 <= #[trigger] vs[k] <= 900,
        decreases 31 - depth,
    {
        let found = least_valuable_attacker(to, side, occ, &pieces, atk);
        let (attacker_sq, attacker_type) = match found {
            Some(f) => f,
            None => {
                proof {
                    assert(vs + Seq::<int>::empty() =~= vs);
                }
                break;
            },
        };
        let ghost pa = flat(pieces);
        let ghost oa = occ;
        apply_capture(
            &mut pieces,
            &mut occ,
            to,
            victim_side,
            victim_type,
            side,
            attacker_sq,
            attacker_type,
        );
        if attacker_type == PieceType::King {
            let them_att = attackers_to(to, side.flip(), occ, &pieces, atk);
            let them_occ = color_occupancy(&pieces, side.flip());
            if them_att & them_occ != 0 {
                proof {
                    assert(vs + Seq::<int>::empty() =~= vs);
                }
                break;
            }
        }
        let ghost vs_old = vs;
        proof {
            vs = vs.push(victim_value as int);
            assert(attacker_type == piece_type_of_index(attacker_type.idx()));
            assert(vs_old + exchange_values(
                pa,
                oa,
                to as int,
                side,
                victim_side.idx() * 6 + victim_type.idx(),
                victim_value as int,
                (31 - depth) as nat,
            ) =~= vs + exchange_values(
                flat(pieces),
                occ,
                to as int,
                side.opposite(),
                side.idx() * 6 + attacker_type.idx(),
                material_of(attacker_type),
                (31 - depth - 1) as nat,
            ));
        }
        depth += 1;
        gain[depth] = victim_value - gain[depth - 1];
        victim_side = side;
        victim_type = attacker_type;
        victim_value = attacker_type.material_value();
        side = side.flip();
    }
    (gain, depth)
}

/// Folds the swap list back from its last entry: each side takes only when it gains.
fn swap_fold(gain: [i32; 32], n: usize, Ghost(vs): Ghost<Seq<int>>) -> (r: i32)
    requires
        n <= 31,
        vs.len() == n,
        forall|k: int| 0 <= k < vs.len() ==> 0 <= #[trigger] vs[k] <= 900,
        forall|k: int| 0 <= k < n ==> #[trigger] gain[k + 1] == vs[k] - gain[k],
        forall|k: int| 0 <= k <= n ==> -1700 - 900 * k <= #[trigger] gain[k] <= 1700 + 900 * k,
    ensures
        r == gain[0] - see_negamax(vs, 0),
        gain[0] - 900 <= r <= gain[0],
{
    proof {
        lemma_negamax_bounds(vs, 0);
    }
    let ghost fwd = gain@;
    let mut gain = gain;
    let mut depth = n;
    proof {
        lemma_negamax_bounds(vs, n as int);
    }
    while depth > 0
        invariant
            0 <= depth <= n <= 31,
            vs.len() == n,
            fwd.len() == 32,
            forall|k: int| 0 <= k < vs.len() ==> 0 <= #[trigger] vs[k] <= 900,
            forall|k: int| 0 <= k < n ==> #[trigger] fwd[k + 1] == vs[k] - fwd[k],
            forall|k: int| 0 <= k <= n ==> -1700 - 900 * k <= #[trigger] fwd[k] <= 1700 + 900 * k,
            forall|k: int| 0 <= k < depth ==> #[trigger] gain[k] == fwd[k],
            forall|k: int| depth <= k <= n ==> #[trigger] gain[k] == fwd[k] - see_negamax(vs, k),
        decreases depth,
    {
        depth -= 1;
        proof {
            lemma_negamax_bounds(vs, depth as int);
            lemma_negamax_bounds(vs, depth as int + 1);
        }
        let next = gain[depth + 1];
        let here = -gain[depth];
        gain[depth] = -(if next > here {
            next
        } else {
            here
        });
    }
    gain[0]
}

/// The static exchange value of a move for the side to move.
pub fn static_exchange_eval(board: &Board, atk: &AttackTables, m: Move) -> (v: i32)
    requires
        atk.wf(),
        board.consistent(),
        see_move_ok(*board, m),
    ensures
        v == see_value(*board, m),
        -900 <= v <= 1700,
{
    if m == MOVE_NONE {
        return 0;
    }
    let from = move_from(m);
    let to = move_to(m);
    let flags = move_flags(m);
    let mover = board.sq_piece[from as usize];
    if mover == PIECE_NONE {
        return 0;
    }
    let moving_side = board.side;
    let mover_type = piece_type(mover);
    let moved_type = if flags == MF_PROMOTION {
        move_promo_pt(m)
    } else {
        mover_type
    };
    let captured_value = captured_value_for_see(board, m);
    let promotion_gain = if flags == MF_PROMOTION {
        moved_type.material_value() - PieceType::Pawn.material_value()
    } else {
        0
    };
    let (pieces, occ) = see_start_state(board, m);
    let (gain, depth) = exchange_gains(
        pieces,
        occ,
        to,
        moving_side.flip(),
        moving_side,
        moved_type,
        captured_value + promotion_gain,
        atk,
    );
    let ghost vs = exchange_values(
        flat(pieces),
        occ,
        to as int,
        moving_side.opposite(),
        moving_side.idx() * 6 + moved_type.idx(),
        material_of(moved_type),
        31,
    );
    proof {
        assert(moved_type.idx() == self::moved_type(*board, m));
        assert(moved_type == piece_type_of_index(moved_type.idx()));
    }
    swap_fold(gain, depth, Ghost(vs))
}


// ---------------------------------------------------------------- exchange by occupancy

/// Exchange values by piece type index: pawn, knight, bishop, rook, queen, king, none.
pub const SEE_VALUES: [i32; 7] = [100, 320, 330, 500, 900, 20000, 0];

pub open spec fn see_piece_value(pt: int) -> int {
    if pt == 0 {
        100
    } else if pt == 1 {
        320
    } else if pt == 2 {
        330
    } else if pt == 3 {
        500
    } else if pt == 4 {
        900
    } else if pt == 5 {
        20000
    } else {
        0
    }
}

proof fn lemma_see_values()
    ensures
        forall|i: int| 0 <= i < 7 ==> #[trigger] SEE_VALUES[i] == see_piece_value(i),
{
    assert(SEE_VALUES[0] == 100);
}

/// The squares from which a pawn of `side` could take on `to`, written square by square.
pub open spec fn pawn_sources(to: int, side: Color) -> u64 {
    if side == Color::White {
        let m1 = if to >= 9 && file_of(to) > 0 {
            0u64 | (1u64 << ((to - 9) as u64))
        } else {
            0u64
        };
        if to >= 7 && file_of(to) < 7 {
            m1 | (1u64 << ((to - 7) as u64))
        } else {
            m1
        }
    } else {
        let m1 = if to <= 56 && file_of(to) > 0 {
            0u64 | (1u64 << ((to + 7) as u64))
        } else {
            0u64
        };
        if to <= 54 && file_of(to) < 7 {
            m1 | (1u64 << ((to + 9) as u64))
        } else {
            m1
        }
    }
}

/// The pieces of type `k` of `side` (on the board, still in `occ`) that reach `to`.
pub open spec fn occ_candidates(b: Board, to: int, side: Color, occ: u64, k: int) -> u64 {
    let ci = side.idx();
    let reach = if k == 0 {
        pawn_sources(to, side)
    } else if k == 1 {
        knight_set(to)
    } else if k == 2 {
        bishop_reach(to, occ)
    } else if k == 3 {
        rook_reach(to, occ)
    } else if k == 4 {
        bishop_reach(to, occ) | rook_reach(to, occ)
    } else {
        king_set(to)
    };
    reach & b.pieces[ci][k] & occ
}

/// The least valuable attacker by occupancy from type `k` on: its type (6 when
/// there is none) and the occupancy with its lowest square taken out.
pub open spec fn occ_lva(b: Board, to: int, side: Color, occ: u64, k: int) -> (int, u64)
    decreases 6 - k,
{
    if k >= 6 || k < 0 {
        (6, occ)
    } else {
        let c = occ_candidates(b, to, side, occ, k);
        if c != 0 {
            (k, occ ^ (1u64 << (squares_of(c)[0] as u64)))
        } else {
            occ_lva(b, to, side, occ, k + 1)
        }
    }
}

/// The swap list: each step records the value of taking the last capturer minus the
/// entry before; it stops after a step that cannot pay for either side, or at 32
/// entries. A recapture is recorded only when the side to recapture has an attacker:
/// a capture nobody answers keeps what it took.
pub open spec fn occ_swap_list(
    b: Board,
    to: int,
    side: Color,
    occ: u64,
    cur: int,
    gains: Seq<int>,
) -> Seq<int>
    decreases 32 - gains.len(),
{
    if gains.len() >= 32 || gains.len() == 0 {
        gains
    } else {
        let g = cur - gains.last();
        let gains2 = gains.push(g);
        if (if -g > gains.last() {
            -g
        } else {
            gains.last()
        }) < 0 {
            gains2
        } else {
            let (pt, occ2) = occ_lva(b, to, side, occ, 0);
            if pt == 6 {
                gains
            } else {
                occ_swap_list(b, to, side.opposite(), occ2, see_piece_value(pt), gains2)
            }
        }
    }
}

/// The swap list folded back from its end: each entry becomes the lesser of itself and
/// the negated entry after it.
pub open spec fn swap_back(g: Seq<int>, d: int) -> int
    decreases g.len() - d,
{
    if d >= g.len() - 1 || d < 0 {
        if 0 <= d < g.len() {
            g[d]
        } else {
            0
        }
    } else {
        let next = swap_back(g, d + 1);
        -(if -g[d] > next {
            -g[d]
        } else {
            next
        })
    }
}

/// The exchange value by occupancy of a move: what it takes (and gains by promoting),
/// then captures and recaptures on its target, the mover's own piece value first.
pub open spec fn occ_see_value(b: Board, m: Move) -> int {
    let from = from_of(m) as int;
    let to = to_of(m) as int;
    let mover = b.sq_piece[from];
    if mover == PIECE_NONE {
        0
    } else {
        let cap = b.sq_piece[to];
        let g0 = (if cap != PIECE_NONE {
            see_piece_value(type_idx(cap))
        } else if flags_of(m) == MF_EN_PASSANT {
            100
        } else {
            0
        }) + if flags_of(m) == MF_PROMOTION {
            see_piece_value(promo_of(m).idx()) - 100
        } else {
            0
        };
        let color = color_of_piece(mover);
        let fb = 1u64 << (from as u64);
        let occ0 = b.occ_all ^ fb;
        let occ1 = if flags_of(m) == MF_EN_PASSANT {
            occ0 ^ (1u64 << (ep_capture_square(color, to) as u64))
        } else {
            occ0
        };
        let cur = if flags_of(m) == MF_PROMOTION {
            see_piece_value(promo_of(m).idx())
        } else {
            see_piece_value(type_idx(mover))
        };
        swap_back(occ_swap_list(b, to, color.opposite(), occ1, cur, seq![g0]), 0)
    }
}

/// Takes the least valuable attacker of `to` of `side` out of `occ`.
fn occ_least_valuable_attacker(
    board: &Board,
    atk: &AttackTables,
    to: Square,
    side: Color,
    occ: &mut Bb,
) -> (pt: PieceType)
    requires
        atk.wf(),
        to < 64,
    ensures
        (pt.idx(), *final(occ)) == occ_lva(*board, to as int, side, *old(occ), 0),
{
    let ci = side.index();
    let pawn_attackers = if side == Color::White {
        let mut mask = 0u64;
        if to >= 9 && sq_file(to) > 0 {
            mask = mask | bb(to - 9);
        }
        if to >= 7 && sq_file(to) < 7 {
            mask = mask | bb(to - 7);
        }
        mask
    } else {
        let mut mask = 0u64;
        if to <= 56 && sq_file(to) > 0 {
            mask = mask | bb(to + 7);
        }
        if to <= 54 && sq_file(to) < 7 {
            mask = mask | bb(to + 9);
        }
        mask
    };
    proof {
        lemma_leaper_sets(atk, to as int);
        assert(pawn_attackers == pawn_sources(to as int, side));
        reveal_with_fuel(occ_lva, 7);
    }
    let ghost o = *occ;
    let pawns = pawn_attackers & board.pieces[ci][0] & *occ;
    if pawns != 0 {
        *occ = *occ ^ bb(bb_lsb(pawns));
        return PieceType::Pawn;
    }
    let knights = atk.knight[to as usize] & board.pieces[ci][1] & *occ;
    if knights != 0 {
        *occ = *occ ^ bb(bb_lsb(knights));
        return PieceType::Knight;
    }
    let bishop_atk = atk.bishop_attacks(to, *occ);
    let bishops = bishop_atk & board.pieces[ci][2] & *occ;
    if bishops != 0 {
        *occ = *occ ^ bb(bb_lsb(bishops));
        return PieceType::Bishop;
    }
    let rook_atk = atk.rook_attacks(to, *occ);
    let rooks = rook_atk & board.pieces[ci][3] & *occ;
    if rooks != 0 {
        *occ = *occ ^ bb(bb_lsb(rooks));
        return PieceType::Rook;
    }
    let queen_atk = bishop_atk | rook_atk;
    let queens = queen_atk & board.pieces[ci][4] & *occ;
    if queens != 0 {
        *occ = *occ ^ bb(bb_lsb(queens));
        return PieceType::Queen;
    }
    let kings = atk.king[to as usize] & board.pieces[ci][5] & *occ;
    if kings != 0 {
        *occ = *occ ^ bb(bb_lsb(kings));
        return PieceType::King;
    }
    PieceType::Empty
}

/// The moves whose squares `see` can work with: an en passant capture's pawn square,
/// taken from the mover's color, is on the board.
pub open spec fn occ_see_move_ok(b: Board, m: Move) -> bool {
    let mover = b.sq_piece[from_of(m) as int];
    (flags_of(m) == MF_EN_PASSANT && mover != PIECE_NONE) ==> 0 <= ep_capture_square(
        color_of_piece(mover),
        to_of(m) as int,
    ) < 64
}

/// The first `depth + 1` entries of a swap list.
pub open spec fn gain_list(g: [i32; 32], depth: int) -> Seq<int> {
    Seq::new((depth + 1) as nat, |k: int| g[k] as int)
}

/// The bounds every swap-list entry keeps.
pub open spec fn swap_bounded(g: Seq<int>) -> bool {
    forall|k: int| 0 <= k < g.len() ==> -20800 - 20000 * k <= #[trigger] g[k] <= 20800 + 20000 * k
}

proof fn lemma_swap_back_bounds(g: Seq<int>, d: int)
    requires
        swap_bounded(g),
        0 <= d < g.len() <= 32,
    ensures
        -20800 - 20000 * (g.len() - 1) <= swap_back(g, d) <= 20800 + 20000 * (g.len() - 1),
    decreases g.len() - d,
{
    if d < g.len() - 1 {
        lemma_swap_back_bounds(g, d + 1);
    }
}

/// Static exchange evaluation by occupancy: the material the moving side comes out
/// with after the captures and recaptures on the target square.
pub fn see(board: &Board, atk: &AttackTables, m: Move) -> (v: i32)
    requires
        atk.wf(),
        board.consistent(),
        occ_see_move_ok(*board, m),
    ensures
        v == occ_see_value(*board, m),
{
    proof {
        lemma_see_values();
    }
    let from = move_from(m);
    let to = move_to(m);
    let mover_piece = board.sq_piece[from as usize];
    if mover_piece == PIECE_NONE {
        return 0;
    }
    let mover_pt = piece_type(mover_piece);
    let mover_color = piece_color(mover_piece);
    let cap_piece = board.sq_piece[to as usize];
    let mut gain = if cap_piece != PIECE_NONE {
        SEE_VALUES[piece_type(cap_piece).index()]
    } else if move_flags(m) == MF_EN_PASSANT {
        SEE_VALUES[0]
    } else {
        0
    };
    if move_flags(m) == MF_PROMOTION {
        let promo_pt = move_promo_pt(m);
        gain = gain + (SEE_VALUES[promo_pt.index()] - SEE_VALUES[0]);
    }
    let mut gains = [0i32; 32];
    gains[0] = gain;
    let mut depth: usize = 0;
    let mut occ = board.occ_all ^ bb(from);
    if move_flags(m) == MF_EN_PASSANT {
        let ep_cap_sq = if mover_color == Color::White {
            to - 8
        } else {
            to + 8
        };
        occ = occ ^ bb(ep_cap_sq);
    }
    let mut current_attacker_value = if move_flags(m) == MF_PROMOTION {
        SEE_VALUES[move_promo_pt(m).index()]
    } else {
        SEE_VALUES[mover_pt.index()]
    };
    let mut side = mover_color.flip();
    let ghost total = occ_see_value(*board, m);
    let ghost total_list = occ_swap_list(
        *board,
        to as int,
        side,
        occ,
        current_attacker_value as int,
        seq![gain as int],
    );
    proof {
        assert(total == swap_back(total_list, 0));
        assert(gain_list(gains, 0) =~= seq![gain as int]);
    }
    loop
        invariant_except_break
            atk.wf(),
            to < 64,
            depth < 32,
            0 <= current_attacker_value <= 20000,
            swap_bounded(gain_list(gains, depth as int)),
            occ_swap_list(
                *board,
                to as int,
                side,
                occ,
                current_attacker_value as int,
                gain_list(gains, depth as int),
            ) == total_list,
        ensures
            depth < 32,
            gain_list(gains, depth as int) == total_list,
            swap_bounded(gain_list(gains, depth as int)),
        decreases 32 - depth,
    {
        let ghost before = gain_list(gains, depth as int);
        if depth + 1 >= 32 {
            break;
        }
        depth += 1;
        gains[depth] = current_attacker_value - gains[depth - 1];
        let g = gains[depth];
        let prev = gains[depth - 1];
        let ghost after = gain_list(gains, depth as int);
        proof {
            assert(after =~= before.push(g as int));
            assert(before.last() == prev);
        }
        if (if -g > prev {
            -g
        } else {
            prev
        }) < 0 {
            break;
        }
        let pt = occ_least_valuable_attacker(board, atk, to, side, &mut occ);
        if pt == PieceType::Empty {
            // Nobody recaptures: the entry for a recapture is dropped.
            depth -= 1;
            proof {
                assert(gain_list(gains, depth as int) =~= before);
            }
            break;
        }
        current_attacker_value = SEE_VALUES[pt.index()];
        side = side.flip();
    }
    let ghost g_list = gain_list(gains, depth as int);
    let ghost n = depth as int;
    proof {
        lemma_swap_back_bounds(g_list, n);
    }
    while depth > 0
        invariant
            depth <= n < 32,
            g_list.len() == n + 1,
            swap_bounded(g_list),
            forall|k: int| 0 <= k < depth ==> #[trigger] gains[k] == g_list[k],
            gains[depth as int] == swap_back(g_list, depth as int),
        decreases depth,
    {
        depth -= 1;
        proof {
            lemma_swap_back_bounds(g_list, depth as int);
            lemma_swap_back_bounds(g_list, depth as int + 1);
        }
        let here = -gains[depth];
        let next = gains[depth + 1];
        gains[depth] = -(if here > next {
            here
        } else {
            next
        });
    }
    gains[0]
}

/// Whether the exchange value of a move reaches `threshold`.
pub fn see_ge(board: &Board, atk: &AttackTables, m: Move, threshold: i32) -> (r: bool)
    requires
        atk.wf(),
        board.consistent(),
        occ_see_move_ok(*board, m),
    ensures
        r == (occ_see_value(*board, m) >= threshold),
{
    see(board, atk, m) >= threshold
}

/// The king takes part in exchanges: when the only pieces of `side` that reach `to`
/// are kings, and the one on `ks` next to `to` is its only king, the least valuable
/// attacker is that king (type 5), and it leaves `ks`.
pub proof fn law_king_is_the_last_attacker(b: Board, to: int, side: Color, occ: u64, ks: int)
    requires
        b.consistent(),
        0 <= to < 64,
        0 <= ks < 64,
        crate::bitboard::bit(king_set(to), ks),
        b.sq_piece[ks] == side.idx() * 6 + 5,
        crate::bitboard::bit(occ, ks),
        forall|s: int| 0 <= s < 64 && s != ks ==> #[trigger] b.sq_piece[s] != side.idx() * 6 + 5,
        forall|k: int| 0 <= k < 5 ==> #[trigger] occ_candidates(b, to, side, occ, k) == 0,
    ensures
        occ_lva(b, to, side, occ, 0) == (5int, occ ^ (1u64 << (ks as u64))),
{
    broadcast use crate::bitboard::group_bit_lemmas;

    reveal_with_fuel(occ_lva, 7);
    let c = king_set(to) & b.pieces[side.idx()][5] & occ;
    assert(crate::bitboard::bit(b.pieces[side.idx()][5], ks));
    assert(crate::bitboard::bit(c, ks));
    assert forall|j: int| 0 <= j < ks implies !crate::bitboard::bit(c, j) by {
        if crate::bitboard::bit(c, j) {
            assert(crate::bitboard::bit(b.pieces[side.idx()][5], j));
        }
    }
    crate::bitboard::lemma_squares_of_lowest(c, ks);
    assert(occ_candidates(b, to, side, occ, 5) == c);
    assert(occ_candidates(b, to, side, occ, 0) == 0);
    assert(occ_candidates(b, to, side, occ, 1) == 0);
    assert(occ_candidates(b, to, side, occ, 2) == 0);
    assert(occ_candidates(b, to, side, occ, 3) == 0);
    assert(occ_candidates(b, to, side, occ, 4) == 0);
}

/// A capture whose victim is defended by the enemy king alone loses the capturer:
/// when nothing else of either side reaches the target, the king is the only enemy
/// king, and the capturer is worth more than its victim, the exchange is the
/// victim's value minus the capturer's.
pub proof fn law_capture_defended_by_king_alone(b: Board, m: Move, ks: int)
    requires
        b.consistent(),
        from_of(m) != to_of(m),
        b.sq_piece[from_of(m) as int] != PIECE_NONE,
        b.sq_piece[to_of(m) as int] != PIECE_NONE,
        flags_of(m) != MF_EN_PASSANT,
        flags_of(m) != MF_PROMOTION,
        0 <= ks < 64,
        crate::bitboard::bit(king_set(to_of(m) as int), ks),
        b.sq_piece[ks] == color_of_piece(b.sq_piece[from_of(m) as int]).opposite().idx() * 6 + 5,
        forall|s: int|
            0 <= s < 64 && s != ks ==> #[trigger] b.sq_piece[s] != color_of_piece(
                b.sq_piece[from_of(m) as int],
            ).opposite().idx() * 6 + 5,
        forall|k: int|
            0 <= k < 5 ==> #[trigger] occ_candidates(
                b,
                to_of(m) as int,
                color_of_piece(b.sq_piece[from_of(m) as int]).opposite(),
                b.occ_all ^ (1u64 << (from_of(m) as u64)),
                k,
            ) == 0,
        forall|k: int|
            0 <= k < 6 ==> #[trigger] occ_candidates(
                b,
                to_of(m) as int,
                color_of_piece(b.sq_piece[from_of(m) as int]),
                (b.occ_all ^ (1u64 << (from_of(m) as u64))) ^ (1u64 << (ks as u64)),
                k,
            ) == 0,
        see_piece_value(type_idx(b.sq_piece[from_of(m) as int])) > see_piece_value(
            type_idx(b.sq_piece[to_of(m) as int]),
        ),
    ensures
        occ_see_value(b, m) == see_piece_value(type_idx(b.sq_piece[to_of(m) as int])) - see_piece_value(
            type_idx(b.sq_piece[from_of(m) as int]),
        ),
{
    broadcast use crate::bitboard::group_bit_lemmas;

    let from = from_of(m) as int;
    let to = to_of(m) as int;
    let mover = b.sq_piece[from];
    let cap = b.sq_piece[to];
    let color = color_of_piece(mover);
    let opp = color.opposite();
    let occ1 = b.occ_all ^ (1u64 << (from as u64));
    let occ2 = occ1 ^ (1u64 << (ks as u64));
    crate::types::lemma_move_bounds(m);
    assert(ks != from);
    assert(crate::bitboard::bit(b.occ_all, ks));
    assert(crate::bitboard::bit(occ1, ks));
    law_king_is_the_last_attacker(b, to, opp, occ1, ks);
    reveal_with_fuel(occ_lva, 7);
    assert(occ_candidates(b, to, color, occ2, 0) == 0);
    assert(occ_candidates(b, to, color, occ2, 1) == 0);
    assert(occ_candidates(b, to, color, occ2, 2) == 0);
    assert(occ_candidates(b, to, color, occ2, 3) == 0);
    assert(occ_candidates(b, to, color, occ2, 4) == 0);
    assert(occ_candidates(b, to, color, occ2, 5) == 0);
    assert(occ_lva(b, to, color, occ2, 0) == (6int, occ2));
    let vc = see_piece_value(type_idx(cap));
    let vm = see_piece_value(type_idx(mover));
    assert(vc >= 100);
    reveal_with_fuel(occ_swap_list, 3);
    let g1 = seq![vc];
    let g2 = g1.push(vm - vc);
    assert(occ_swap_list(b, to, color, occ2, 20000, g2) == g2);
    assert(occ_swap_list(b, to, opp, occ1, vm, g1) == g2);
    reveal_with_fuel(swap_back, 3);
    assert(swap_back(g2, 1) == vm - vc);
}

/// Taking an undefended piece wins it whole: when no piece of the other side reaches
/// the target once the capturer has left its square, the exchange is the victim's
/// value.
pub proof fn law_undefended_capture_wins_the_victim(b: Board, m: Move)
    requires
        b.consistent(),
        b.sq_piece[from_of(m) as int] != PIECE_NONE,
        b.sq_piece[to_of(m) as int] != PIECE_NONE,
        flags_of(m) != MF_EN_PASSANT,
        flags_of(m) != MF_PROMOTION,
        forall|k: int|
            0 <= k < 6 ==> #[trigger] occ_candidates(
                b,
                to_of(m) as int,
                color_of_piece(b.sq_piece[from_of(m) as int]).opposite(),
                b.occ_all ^ (1u64 << (from_of(m) as u64)),
                k,
            ) == 0,
    ensures
        occ_see_value(b, m) == see_piece_value(type_idx(b.sq_piece[to_of(m) as int])),
{
    let to = to_of(m) as int;
    let mover = b.sq_piece[from_of(m) as int];
    let opp = color_of_piece(mover).opposite();
    let occ1 = b.occ_all ^ (1u64 << (from_of(m) as u64));
    reveal_with_fuel(occ_lva, 7);
    assert(occ_candidates(b, to, opp, occ1, 0) == 0);
    assert(occ_candidates(b, to, opp, occ1, 1) == 0);
    assert(occ_candidates(b, to, opp, occ1, 2) == 0);
    assert(occ_candidates(b, to, opp, occ1, 3) == 0);
    assert(occ_candidates(b, to, opp, occ1, 4) == 0);
    assert(occ_candidates(b, to, opp, occ1, 5) == 0);
    assert(occ_lva(b, to, opp, occ1, 0).0 == 6);
    let vc = see_piece_value(type_idx(b.sq_piece[to]));
    assert(vc >= 100);
    reveal_with_fuel(occ_swap_list, 2);
    assert(occ_swap_list(b, to, opp, occ1, see_piece_value(type_idx(mover)), seq![vc]) == seq![vc]);
}

/// A piece of type `kind` of `side` on `s` attacks `to` on a board with occupancy
/// `occ`, by the moves of chess: a pawn diagonally forward, a knight by its jump,
/// bishops, rooks and queens along open lines, a king next door.
pub open spec fn piece_attacks(kind: int, side: Color, s: int, to: int, occ: u64) -> bool {
    if kind == 0 {
        if side == Color::White {
            (to == s + 9 && file_of(s) < 7) || (to == s + 7 && file_of(s) > 0)
        } else {
            (to == s - 7 && file_of(s) < 7) || (to == s - 9 && file_of(s) > 0)
        }
    } else if kind == 1 {
        crate::bitboard::bit(knight_set(to), s)
    } else if kind == 2 {
        crate::bitboard::bit(bishop_reach(to, occ), s)
    } else if kind == 3 {
        crate::bitboard::bit(rook_reach(to, occ), s)
    } else if kind == 4 {
        crate::bitboard::bit(bishop_reach(to, occ), s) || crate::bitboard::bit(rook_reach(to, occ), s)
    } else {
        crate::bitboard::bit(king_set(to), s)
    }
}

/// The least valuable attacker is found by the moves of chess: when the only piece
/// of its kind of `side` stands on `ds` and attacks `to`, and no cheaper piece of
/// `side` reaches `to`, it is the attacker, and it leaves `ds`.
pub proof fn law_least_valuable_attacker_found(b: Board, to: int, side: Color, occ: u64, kind: int, ds: int)
    requires
        b.consistent(),
        0 <= to < 64,
        0 <= ds < 64,
        0 <= kind < 6,
        b.sq_piece[ds] == side.idx() * 6 + kind,
        piece_attacks(kind, side, ds, to, occ),
        crate::bitboard::bit(occ, ds),
        forall|s: int| 0 <= s < 64 && s != ds ==> #[trigger] b.sq_piece[s] != side.idx() * 6 + kind,
        forall|k: int| 0 <= k < kind ==> #[trigger] occ_candidates(b, to, side, occ, k) == 0,
    ensures
        occ_lva(b, to, side, occ, 0) == (kind, occ ^ (1u64 << (ds as u64))),
{
    broadcast use crate::bitboard::group_bit_lemmas;

    reveal_with_fuel(occ_lva, 7);
    let c = occ_candidates(b, to, side, occ, kind);
    assert(crate::bitboard::bit(b.pieces[side.idx()][kind], ds));
    if kind == 0 {
        let t = to as u64;
        if side == Color::White {
            if to == ds + 9 {
                assert(crate::bitboard::bit(1u64 << ((to - 9) as u64), ds));
            } else {
                assert(crate::bitboard::bit(1u64 << ((to - 7) as u64), ds));
            }
        } else {
            if to == ds - 7 {
                assert(crate::bitboard::bit(1u64 << ((to + 7) as u64), ds));
            } else {
                assert(crate::bitboard::bit(1u64 << ((to + 9) as u64), ds));
            }
        }
        assert(crate::bitboard::bit(pawn_sources(to, side), ds));
    }
    assert(crate::bitboard::bit(c, ds));
    assert forall|j: int| 0 <= j < ds implies !crate::bitboard::bit(c, j) by {
        if crate::bitboard::bit(c, j) {
            assert(crate::bitboard::bit(b.pieces[side.idx()][kind], j));
        }
    }
    crate::bitboard::lemma_squares_of_lowest(c, ds);
    if kind > 0 {
        assert(occ_candidates(b, to, side, occ, 0) == 0);
    }
    if kind > 1 {
        assert(occ_candidates(b, to, side, occ, 1) == 0);
    }
    if kind > 2 {
        assert(occ_candidates(b, to, side, occ, 2) == 0);
    }
    if kind > 3 {
        assert(occ_candidates(b, to, side, occ, 3) == 0);
    }
    if kind > 4 {
        assert(occ_candidates(b, to, side, occ, 4) == 0);
    }
}

/// A capture answered once loses the capturer: when a single enemy piece, the only one
/// of its kind, attacks the target, no cheaper enemy piece reaches it, nothing of the
/// capturing side comes back, and the capturer is worth more than its victim, the
/// exchange is the victim's value minus the capturer's.
pub proof fn law_capture_answered_once(b: Board, m: Move, kind: int, ds: int)
    requires
        b.consistent(),
        from_of(m) != to_of(m),
        b.sq_piece[from_of(m) as int] != PIECE_NONE,
        b.sq_piece[to_of(m) as int] != PIECE_NONE,
        flags_of(m) != MF_EN_PASSANT,
        flags_of(m) != MF_PROMOTION,
        0 <= ds < 64,
        0 <= kind < 6,
        b.sq_piece[ds] == color_of_piece(b.sq_piece[from_of(m) as int]).opposite().idx() * 6 + kind,
        piece_attacks(
            kind,
            color_of_piece(b.sq_piece[from_of(m) as int]).opposite(),
            ds,
            to_of(m) as int,
            b.occ_all ^ (1u64 << (from_of(m) as u64)),
        ),
        forall|s: int|
            0 <= s < 64 && s != ds ==> #[trigger] b.sq_piece[s] != color_of_piece(
                b.sq_piece[from_of(m) as int],
            ).opposite().idx() * 6 + kind,
        forall|k: int|
            0 <= k < kind ==> #[trigger] occ_candidates(
                b,
                to_of(m) as int,
                color_of_piece(b.sq_piece[from_of(m) as int]).opposite(),
                b.occ_all ^ (1u64 << (from_of(m) as u64)),
                k,
            ) == 0,
        forall|k: int|
            0 <= k < 6 ==> #[trigger] occ_candidates(
                b,
                to_of(m) as int,
                color_of_piece(b.sq_piece[from_of(m) as int]),
                (b.occ_all ^ (1u64 << (from_of(m) as u64))) ^ (1u64 << (ds as u64)),
                k,
            ) == 0,
        see_piece_value(type_idx(b.sq_piece[from_of(m) as int])) > see_piece_value(
            type_idx(b.sq_piece[to_of(m) as int]),
        ),
    ensures
        occ_see_value(b, m) == see_piece_value(type_idx(b.sq_piece[to_of(m) as int])) - see_piece_value(
            type_idx(b.sq_piece[from_of(m) as int]),
        ),
{
    broadcast use crate::bitboard::group_bit_lemmas;

    let from = from_of(m) as int;
    let to = to_of(m) as int;
    let mover = b.sq_piece[from];
    let cap = b.sq_piece[to];
    let color = color_of_piece(mover);
    let opp = color.opposite();
    let occ1 = b.occ_all ^ (1u64 << (from as u64));
    let occ2 = occ1 ^ (1u64 << (ds as u64));
    crate::types::lemma_move_bounds(m);
    assert(ds != from);
    assert(crate::bitboard::bit(b.occ_all, ds));
    assert(crate::bitboard::bit(occ1, ds));
    law_least_valuable_attacker_found(b, to, opp, occ1, kind, ds);
    reveal_with_fuel(occ_lva, 7);
    assert(occ_candidates(b, to, color, occ2, 0) == 0);
    assert(occ_candidates(b, to, color, occ2, 1) == 0);
    assert(occ_candidates(b, to, color, occ2, 2) == 0);
    assert(occ_candidates(b, to, color, occ2, 3) == 0);
    assert(occ_candidates(b, to, color, occ2, 4) == 0);
    assert(occ_candidates(b, to, color, occ2, 5) == 0);
    assert(occ_lva(b, to, color, occ2, 0) == (6int, occ2));
    let vc = see_piece_value(type_idx(cap));
    let vm = see_piece_value(type_idx(mover));
    assert(vc >= 100);
    reveal_with_fuel(occ_swap_list, 3);
    let g1 = seq![vc];
    let g2 = g1.push(vm - vc);
    assert(occ_swap_list(b, to, color, occ2, see_piece_value(kind), g2) == g2);
    assert(occ_swap_list(b, to, opp, occ1, vm, g1) == g2);
    reveal_with_fuel(swap_back, 3);
    assert(swap_back(g2, 1) == vm - vc);
}

} // verus!
