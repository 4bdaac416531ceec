use vstd::prelude::*;
use crate::attacks::{bishop_reach, king_step, knight_hop, rook_reach};
use crate::board::{Board, attacked_by};
use crate::magic::AttackTables;
use crate::bitboard::{bb, bb_pop_lsb, bit, group_bit_lemmas, lemma_bits_eq, squares_of};
use crate::types::{
    Bb, Move, PieceType, Square, BB_FILE_A, BB_FILE_H, BB_RANK_1, BB_RANK_3, BB_RANK_6, BB_RANK_8,
    NO_SQUARE, CR_BLACK_KINGSIDE, CR_BLACK_QUEENSIDE, CR_WHITE_KINGSIDE, CR_WHITE_QUEENSIDE, Color,
    encode_move, make_move, make_move_castling, make_move_ep, make_move_promo,
    MF_CASTLING, MF_EN_PASSANT, PIECE_NONE, color_of_piece, flags_of, from_of, move_flags,
    move_from, move_to, piece_color, piece_type, to_of, type_of_piece,
};

verus! {

// ---------------------------------------------------------------- move lists

/// A fixed-capacity list of moves with a score per move.
pub struct MoveList {
    pub moves: [Move; 256],
    pub scores: [i32; 256],
    pub count: usize,
}

impl MoveList {
    /// The moves held, in order.
    pub open spec fn view_moves(&self) -> Seq<Move> {
        self.moves@.subrange(0, self.count as int)
    }

    pub open spec fn wf(&self) -> bool {
        self.count <= 256
    }

    /// Within its count the list holds only unscored moves (score 0), as generated.
    pub open spec fn fresh(&self) -> bool {
        &&& self.wf()
        &&& forall|i: int| 0 <= i < self.count ==> #[trigger] self.scores@[i] == 0
    }

    pub fn new() -> (l: Self)
        ensures
            l.wf(),
            l.count == 0,
            l.view_moves() == Seq::<Move>::empty(),
            l.moves@ == Seq::new(256, |i: int| 0u16),
            l.scores@ == Seq::new(256, |i: int| 0i32),
    {
        let l = MoveList { moves: [0; 256], scores: [0; 256], count: 0 };
        proof {
            assert(l.moves@ =~= Seq::new(256, |i: int| 0u16));
            assert(l.scores@ =~= Seq::new(256, |i: int| 0i32));
        }
        l
    }

    /// Appends a move with score 0.
    pub fn push(&mut self, m: Move)
        requires
            old(self).wf(),
            old(self).count < 256,
        ensures
            final(self).wf(),
            final(self).count == old(self).count + 1,
            final(self).view_moves() == old(self).view_moves().push(m),
            final(self).moves@ == old(self).moves@.update(old(self).count as int, m),
            final(self).scores@ == old(self).scores@.update(old(self).count as int, 0),
    {
        self.moves[self.count] = m;
        self.scores[self.count] = 0;
        self.count += 1;
        proof {
            assert(self.view_moves() =~= old(self).view_moves().push(m));
        }
    }

    /// The moves held.
    pub fn iter(&self) -> (s: &[Move])
        requires
            self.wf(),
        ensures
            s@ == self.view_moves(),
    {
        let (head, _) = self.moves.as_slice().split_at(self.count);
        head
    }

    /// Swaps the best-scored move from `start` on (the first of equal scores) to
    /// position `start`, with its score.
    pub fn pick_best(&mut self, start: usize)
        requires
            old(self).wf(),
            start < 256,
        ensures
            final(self).count == old(self).count,
            exists|b: int|
                {
                    &&& start <= b < 256
                    &&& (b == start || b < old(self).count)
                    &&& forall|i: int|
                        start <= i < old(self).count ==> #[trigger] old(self).scores@[i]
                            <= old(self).scores@[b]
                    &&& forall|i: int|
                        start <= i < b ==> #[trigger] old(self).scores@[i] < old(self).scores@[b]
                    &&& final(self).moves@ == old(self).moves@.update(
                        start as int,
                        old(self).moves@[b],
                    ).update(b, old(self).moves@[start as int])
                    &&& final(self).scores@ == old(self).scores@.update(
                        start as int,
                        old(self).scores@[b],
                    ).update(b, old(self).scores@[start as int])
                },
    {
        let mut best_idx = start;
        let mut i = start + 1;
        while i < self.count
            invariant
                self.wf(),
                start < 256,
                start < i,
                start <= best_idx < i,
                best_idx == start || best_idx < self.count,
                forall|k: int| start <= k < i && k < self.count ==> #[trigger] self.scores@[k] <= self.scores@[best_idx as int],
                forall|k: int| start <= k < best_idx ==> #[trigger] self.scores@[k] < self.scores@[best_idx as int],
            decreases self.count - i,
        {
            if self.scores[i] > self.scores[best_idx] {
                best_idx = i;
            }
            i += 1;
        }
        let ghost b = best_idx as int;
        let m_start = self.moves[start];
        let m_best = self.moves[best_idx];
        self.moves[start] = m_best;
        self.moves[best_idx] = m_start;
        let s_start = self.scores[start];
        let s_best = self.scores[best_idx];
        self.scores[start] = s_best;
        self.scores[best_idx] = s_start;
        proof {
            assert(self.moves@ =~= old(self).moves@.update(start as int, old(self).moves@[b]).update(
                b,
                old(self).moves@[start as int],
            ));
            assert(self.scores@ =~= old(self).scores@.update(start as int, old(self).scores@[b]).update(
                b,
                old(self).scores@[start as int],
            ));
        }
    }
}

// ---------------------------------------------------------------- move sequences

/// Ordinary moves from `from` to each of `tos`.
pub open spec fn from_moves(from: int, tos: Seq<int>) -> Seq<Move>
    decreases tos.len(),
{
    if tos.len() == 0 {
        Seq::empty()
    } else {
        seq![encode_move(from, tos[0], 0, 0)] + from_moves(from, tos.drop_first())
    }
}

/// Ordinary pawn moves to each of `tos`, from `to + delta`.
pub open spec fn pawn_moves_by(tos: Seq<int>, delta: int) -> Seq<Move>
    decreases tos.len(),
{
    if tos.len() == 0 {
        Seq::empty()
    } else {
        seq![encode_move(tos[0] + delta, tos[0], 0, 0)] + pawn_moves_by(tos.drop_first(), delta)
    }
}

/// The four promotions of one pawn move: queen, rook, bishop, knight.
pub open spec fn promo_four(from: int, to: int) -> Seq<Move> {
    seq![
        encode_move(from, to, 1, 3),
        encode_move(from, to, 1, 2),
        encode_move(from, to, 1, 1),
        encode_move(from, to, 1, 0),
    ]
}

/// The promotions of pawn moves to each of `tos`, from `to + delta`.
pub open spec fn promos_by(tos: Seq<int>, delta: int) -> Seq<Move>
    decreases tos.len(),
{
    if tos.len() == 0 {
        Seq::empty()
    } else {
        promo_four(tos[0] + delta, tos[0]) + promos_by(tos.drop_first(), delta)
    }
}

/// Every square of `targets` lies `delta` away from a square of the board.
pub open spec fn shifted_from_board(targets: u64, delta: int) -> bool {
    forall|t: int| #[trigger] bit(targets, t) ==> 0 <= t + delta < 64
}

/// Appends the ordinary moves from `from` to every square of `targets`.
pub fn add_moves(from: Square, targets: Bb, list: &mut MoveList)
    requires
        old(list).wf(),
        from < 64,
        old(list).view_moves().len() + from_moves(from as int, squares_of(targets)).len() <= 256,
    ensures
        final(list).wf(),
        old(list).fresh() ==> final(list).fresh(),
        final(list).view_moves() == old(list).view_moves() + from_moves(
            from as int,
            squares_of(targets),
        ),
{
    let mut targets = targets;
    let ghost total = old(list).view_moves() + from_moves(from as int, squares_of(targets));
    while targets != 0
        invariant
            list.wf(),
            old(list).fresh() ==> list.fresh(),
            from < 64,
            total.len() <= 256,
            list.view_moves() + from_moves(from as int, squares_of(targets)) == total,
        decreases squares_of(targets).len(),
    {
        let ghost t0 = targets;
        let to = bb_pop_lsb(&mut targets);
        let m = make_move(from, to);
        proof {
            assert(from_moves(from as int, squares_of(t0)) == seq![m] + from_moves(
                from as int,
                squares_of(targets),
            ));
            assert(list.view_moves().len() < 256);
        }
        let ghost before = list.view_moves();
        list.push(m);
        proof {
            assert(before.push(m) + from_moves(from as int, squares_of(targets)) =~= before + (seq![m]
                + from_moves(from as int, squares_of(targets))));
        }
    }
    proof {
        crate::bitboard::lemma_squares_of_zero();
        assert(list.view_moves() + Seq::<Move>::empty() =~= list.view_moves());
    }
}

/// Appends the ordinary pawn moves to every square of `targets`, each from the
/// square `from_delta` away.
pub fn add_pawn_moves(targets: Bb, from_delta: i32, list: &mut MoveList)
    requires
        old(list).wf(),
        shifted_from_board(targets, from_delta as int),
        old(list).view_moves().len() + pawn_moves_by(squares_of(targets), from_delta as int).len()
            <= 256,
    ensures
        final(list).wf(),
        old(list).fresh() ==> final(list).fresh(),
        final(list).view_moves() == old(list).view_moves() + pawn_moves_by(
            squares_of(targets),
            from_delta as int,
        ),
{
    broadcast use group_bit_lemmas;

    let mut targets = targets;
    let ghost t_all = targets;
    let ghost total = old(list).view_moves() + pawn_moves_by(squares_of(targets), from_delta as int);
    while targets != 0
        invariant
            list.wf(),
            old(list).fresh() ==> list.fresh(),
            total.len() <= 256,
            forall|t: int| #[trigger] bit(targets, t) ==> bit(t_all, t),
            shifted_from_board(t_all, from_delta as int),
            list.view_moves() + pawn_moves_by(squares_of(targets), from_delta as int) == total,
        decreases squares_of(targets).len(),
    {
        let ghost t0 = targets;
        let to = bb_pop_lsb(&mut targets);
        proof {
            assert(bit(t_all, to as int));
        }
        let from = (to as i32 + from_delta) as Square;
        let m = make_move(from, to);
        proof {
            assert(pawn_moves_by(squares_of(t0), from_delta as int) == seq![m] + pawn_moves_by(
                squares_of(targets),
                from_delta as int,
            ));
            assert(list.view_moves().len() < 256);
        }
        let ghost before = list.view_moves();
        list.push(m);
        proof {
            assert(before.push(m) + pawn_moves_by(squares_of(targets), from_delta as int) =~= before
                + (seq![m] + pawn_moves_by(squares_of(targets), from_delta as int)));
        }
    }
    proof {
        crate::bitboard::lemma_squares_of_zero();
        assert(list.view_moves() + Seq::<Move>::empty() =~= list.view_moves());
    }
}

/// Appends the four promotions of the pawn moves to every square of `targets`, each
/// from the square `from_delta` away.
pub fn add_pawn_promos(targets: Bb, from_delta: i32, list: &mut MoveList)
    requires
        old(list).wf(),
        shifted_from_board(targets, from_delta as int),
        old(list).view_moves().len() + promos_by(squares_of(targets), from_delta as int).len()
            <= 256,
    ensures
        final(list).wf(),
        old(list).fresh() ==> final(list).fresh(),
        final(list).view_moves() == old(list).view_moves() + promos_by(
            squares_of(targets),
            from_delta as int,
        ),
{
    broadcast use group_bit_lemmas;

    let mut targets = targets;
    let ghost t_all = targets;
    let ghost total = old(list).view_moves() + promos_by(squares_of(targets), from_delta as int);
    while targets != 0
        invariant
            list.wf(),
            old(list).fresh() ==> list.fresh(),
            total.len() <= 256,
            forall|t: int| #[trigger] bit(targets, t) ==> bit(t_all, t),
            shifted_from_board(t_all, from_delta as int),
            list.view_moves() + promos_by(squares_of(targets), from_delta as int) == total,
        decreases squares_of(targets).len(),
    {
        let ghost t0 = targets;
        let to = bb_pop_lsb(&mut targets);
        proof {
            assert(bit(t_all, to as int));
        }
        let from = (to as i32 + from_delta) as Square;
        let ghost four = promo_four(from as int, to as int);
        proof {
            assert(promos_by(squares_of(t0), from_delta as int) == four + promos_by(
                squares_of(targets),
                from_delta as int,
            ));
            assert(list.view_moves().len() + 4 <= 256);
        }
        let ghost before = list.view_moves();
        list.push(make_move_promo(from, to, PieceType::Queen));
        list.push(make_move_promo(from, to, PieceType::Rook));
        list.push(make_move_promo(from, to, PieceType::Bishop));
        list.push(make_move_promo(from, to, PieceType::Knight));
        proof {
            assert(list.view_moves() =~= before + four);
            assert(before + four + promos_by(squares_of(targets), from_delta as int) =~= before + (four
                + promos_by(squares_of(targets), from_delta as int)));
        }
    }
    proof {
        crate::bitboard::lemma_squares_of_zero();
        assert(list.view_moves() + Seq::<Move>::empty() =~= list.view_moves());
    }
}


// ---------------------------------------------------------------- pawn moves

/// White's en passant captures onto `ep_sq`: from the left, then from the right.
pub open spec fn white_ep_moves(pawns: u64, ep_sq: Square) -> Seq<Move> {
    if ep_sq >= 64 {
        Seq::empty()
    } else {
        let e = 1u64 << (ep_sq as u64);
        (if (pawns << 9u64) & !BB_FILE_A & e != 0 {
            seq![encode_move(ep_sq - 9, ep_sq as int, 2, 0)]
        } else {
            Seq::empty()
        }) + (if (pawns << 7u64) & !BB_FILE_H & e != 0 {
            seq![encode_move(ep_sq - 7, ep_sq as int, 2, 0)]
        } else {
            Seq::empty()
        })
    }
}

/// Black's en passant captures onto `ep_sq`.
pub open spec fn black_ep_moves(pawns: u64, ep_sq: Square) -> Seq<Move> {
    if ep_sq >= 64 {
        Seq::empty()
    } else {
        let e = 1u64 << (ep_sq as u64);
        (if (pawns >> 7u64) & !BB_FILE_A & e != 0 {
            seq![encode_move(ep_sq + 7, ep_sq as int, 2, 0)]
        } else {
            Seq::empty()
        }) + (if (pawns >> 9u64) & !BB_FILE_H & e != 0 {
            seq![encode_move(ep_sq + 9, ep_sq as int, 2, 0)]
        } else {
            Seq::empty()
        })
    }
}

/// White's pawn moves: single pushes, push promotions, double pushes, captures to
/// the left and right, capture promotions, then en passant.
pub open spec fn white_pawn_moves(pawns: u64, their: u64, ep_sq: Square, occ: u64) -> Seq<Move> {
    let single = (pawns << 8u64) & !occ;
    let double = ((single & BB_RANK_3) << 8u64) & !occ;
    let cap_left = (pawns << 9u64) & !BB_FILE_A & their;
    let cap_right = (pawns << 7u64) & !BB_FILE_H & their;
    pawn_moves_by(squares_of(single & !BB_RANK_8), -8) + promos_by(squares_of(single & BB_RANK_8), -8)
        + pawn_moves_by(squares_of(double), -16) + pawn_moves_by(
        squares_of(cap_left & !BB_RANK_8),
        -9,
    ) + pawn_moves_by(squares_of(cap_right & !BB_RANK_8), -7) + promos_by(
        squares_of(cap_left & BB_RANK_8),
        -9,
    ) + promos_by(squares_of(cap_right & BB_RANK_8), -7) + white_ep_moves(pawns, ep_sq)
}

/// Black's pawn moves, in the same order as white's.
pub open spec fn black_pawn_moves(pawns: u64, their: u64, ep_sq: Square, occ: u64) -> Seq<Move> {
    let single = (pawns >> 8u64) & !occ;
    let double = ((single & BB_RANK_6) >> 8u64) & !occ;
    let cap_left = (pawns >> 7u64) & !BB_FILE_A & their;
    let cap_right = (pawns >> 9u64) & !BB_FILE_H & their;
    pawn_moves_by(squares_of(single & !BB_RANK_1), 8) + promos_by(squares_of(single & BB_RANK_1), 8)
        + pawn_moves_by(squares_of(double), 16) + pawn_moves_by(
        squares_of(cap_left & !BB_RANK_1),
        7,
    ) + pawn_moves_by(squares_of(cap_right & !BB_RANK_1), 9) + promos_by(
        squares_of(cap_left & BB_RANK_1),
        7,
    ) + promos_by(squares_of(cap_right & BB_RANK_1), 9) + black_ep_moves(pawns, ep_sq)
}

/// White's pawn captures and promotions: push promotions onto empty squares, capture
/// promotions, plain captures, then en passant.
pub open spec fn white_pawn_captures(pawns: u64, their: u64, ep_sq: Square, occ: u64) -> Seq<Move> {
    let cap_left = (pawns << 9u64) & !BB_FILE_A & their;
    let cap_right = (pawns << 7u64) & !BB_FILE_H & their;
    promos_by(squares_of((pawns << 8u64) & BB_RANK_8 & !occ), -8) + promos_by(
        squares_of(cap_left & BB_RANK_8),
        -9,
    ) + promos_by(squares_of(cap_right & BB_RANK_8), -7) + pawn_moves_by(
        squares_of(cap_left & !BB_RANK_8),
        -9,
    ) + pawn_moves_by(squares_of(cap_right & !BB_RANK_8), -7) + white_ep_moves(pawns, ep_sq)
}

/// Black's pawn captures and promotions.
pub open spec fn black_pawn_captures(pawns: u64, their: u64, ep_sq: Square, occ: u64) -> Seq<Move> {
    let cap_left = (pawns >> 7u64) & !BB_FILE_A & their;
    let cap_right = (pawns >> 9u64) & !BB_FILE_H & their;
    promos_by(squares_of((pawns >> 8u64) & BB_RANK_1 & !occ), 8) + promos_by(
        squares_of(cap_left & BB_RANK_1),
        7,
    ) + promos_by(squares_of(cap_right & BB_RANK_1), 9) + pawn_moves_by(
        squares_of(cap_left & !BB_RANK_1),
        7,
    ) + pawn_moves_by(squares_of(cap_right & !BB_RANK_1), 9) + black_ep_moves(pawns, ep_sq)
}

/// Appends white's en passant captures.
fn add_white_ep(pawns: Bb, ep_sq: Square, list: &mut MoveList)
    requires
        old(list).wf(),
        ep_sq <= NO_SQUARE,
        old(list).view_moves().len() + white_ep_moves(pawns, ep_sq).len() <= 256,
    ensures
        final(list).wf(),
        old(list).fresh() ==> final(list).fresh(),
        final(list).view_moves() == old(list).view_moves() + white_ep_moves(pawns, ep_sq),
{
    broadcast use group_bit_lemmas;

    if ep_sq != NO_SQUARE {
        let ep_bb = bb(ep_sq);
        let ghost before = list.view_moves();
        proof {
            crate::bitboard::lemma_and_single((pawns << 9u64) & !BB_FILE_A, ep_sq as int);
            crate::bitboard::lemma_and_single((pawns << 7u64) & !BB_FILE_H, ep_sq as int);
        }
        if (pawns << 9) & !BB_FILE_A & ep_bb != 0 {
            list.push(make_move_ep((ep_sq as i32 - 9) as Square, ep_sq));
        }
        let ghost mid = list.view_moves();
        if (pawns << 7) & !BB_FILE_H & ep_bb != 0 {
            list.push(make_move_ep((ep_sq as i32 - 7) as Square, ep_sq));
        }
        proof {
            assert(list.view_moves() =~= before + white_ep_moves(pawns, ep_sq));
        }
    } else {
        proof {
            assert(list.view_moves() =~= old(list).view_moves() + white_ep_moves(pawns, ep_sq));
        }
    }
}

/// Appends black's en passant captures.
fn add_black_ep(pawns: Bb, ep_sq: Square, list: &mut MoveList)
    requires
        old(list).wf(),
        ep_sq <= NO_SQUARE,
        old(list).view_moves().len() + black_ep_moves(pawns, ep_sq).len() <= 256,
    ensures
        final(list).wf(),
        old(list).fresh() ==> final(list).fresh(),
        final(list).view_moves() == old(list).view_moves() + black_ep_moves(pawns, ep_sq),
{
    broadcast use group_bit_lemmas;

    if ep_sq != NO_SQUARE {
        let ep_bb = bb(ep_sq);
        let ghost before = list.view_moves();
        proof {
            crate::bitboard::lemma_and_single((pawns >> 7u64) & !BB_FILE_A, ep_sq as int);
            crate::bitboard::lemma_and_single((pawns >> 9u64) & !BB_FILE_H, ep_sq as int);
        }
        if (pawns >> 7) & !BB_FILE_A & ep_bb != 0 {
            list.push(make_move_ep((ep_sq as i32 + 7) as Square, ep_sq));
        }
        if (pawns >> 9) & !BB_FILE_H & ep_bb != 0 {
            list.push(make_move_ep((ep_sq as i32 + 9) as Square, ep_sq));
        }
        proof {
            assert(list.view_moves() =~= before + black_ep_moves(pawns, ep_sq));
        }
    } else {
        proof {
            assert(list.view_moves() =~= old(list).view_moves() + black_ep_moves(pawns, ep_sq));
        }
    }
}

#[verifier::rlimit(40)]
pub fn gen_pawn_moves_white(pawns: Bb, their: Bb, ep_sq: Square, occ: Bb, list: &mut MoveList)
    requires
        old(list).wf(),
        ep_sq <= NO_SQUARE,
        old(list).view_moves().len() + white_pawn_moves(pawns, their, ep_sq, occ).len() <= 256,
    ensures
        final(list).wf(),
        old(list).fresh() ==> final(list).fresh(),
        final(list).view_moves() == old(list).view_moves() + white_pawn_moves(pawns, their, ep_sq, occ),
{
    broadcast use group_bit_lemmas;

    let ghost base = list.view_moves();
    let single = (pawns << 8) & !occ;
    let promo = single & BB_RANK_8;
    let normal = single & !BB_RANK_8;
    add_pawn_moves(normal, -8i32, list);
    add_pawn_promos(promo, -8i32, list);
    let double = ((single & BB_RANK_3) << 8) & !occ;
    add_pawn_moves(double, -16i32, list);
    let cap_left = (pawns << 9) & !BB_FILE_A & their;
    let cap_right = (pawns << 7) & !BB_FILE_H & their;
    add_pawn_moves(cap_left & !BB_RANK_8, -9i32, list);
    add_pawn_moves(cap_right & !BB_RANK_8, -7i32, list);
    add_pawn_promos(cap_left & BB_RANK_8, -9i32, list);
    add_pawn_promos(cap_right & BB_RANK_8, -7i32, list);
    add_white_ep(pawns, ep_sq, list);
    proof {
        assert(list.view_moves() =~= base + white_pawn_moves(pawns, their, ep_sq, occ));
    }
}

#[verifier::rlimit(40)]
pub fn gen_pawn_moves_black(pawns: Bb, their: Bb, ep_sq: Square, occ: Bb, list: &mut MoveList)
    requires
        old(list).wf(),
        ep_sq <= NO_SQUARE,
        old(list).view_moves().len() + black_pawn_moves(pawns, their, ep_sq, occ).len() <= 256,
    ensures
        final(list).wf(),
        old(list).fresh() ==> final(list).fresh(),
        final(list).view_moves() == old(list).view_moves() + black_pawn_moves(pawns, their, ep_sq, occ),
{
    broadcast use group_bit_lemmas;

    let ghost base = list.view_moves();
    let single = (pawns >> 8) & !occ;
    let promo = single & BB_RANK_1;
    let normal = single & !BB_RANK_1;
    add_pawn_moves(normal, 8i32, list);
    add_pawn_promos(promo, 8i32, list);
    let double = ((single & BB_RANK_6) >> 8) & !occ;
    add_pawn_moves(double, 16i32, list);
    let cap_left = (pawns >> 7) & !BB_FILE_A & their;
    let cap_right = (pawns >> 9) & !BB_FILE_H & their;
    add_pawn_moves(cap_left & !BB_RANK_1, 7i32, list);
    add_pawn_moves(cap_right & !BB_RANK_1, 9i32, list);
    add_pawn_promos(cap_left & BB_RANK_1, 7i32, list);
    add_pawn_promos(cap_right & BB_RANK_1, 9i32, list);
    add_black_ep(pawns, ep_sq, list);
    proof {
        assert(list.view_moves() =~= base + black_pawn_moves(pawns, their, ep_sq, occ));
    }
}

pub fn gen_pawn_captures_white(pawns: Bb, their: Bb, ep_sq: Square, occ: Bb, list: &mut MoveList)
    requires
        old(list).wf(),
        ep_sq <= NO_SQUARE,
        old(list).view_moves().len() + white_pawn_captures(pawns, their, ep_sq, occ).len() <= 256,
    ensures
        final(list).wf(),
        old(list).fresh() ==> final(list).fresh(),
        final(list).view_moves() == old(list).view_moves() + white_pawn_captures(
            pawns,
            their,
            ep_sq,
            occ,
        ),
{
    broadcast use group_bit_lemmas;

    let ghost base = list.view_moves();
    let cap_left = (pawns << 9) & !BB_FILE_A & their;
    let cap_right = (pawns << 7) & !BB_FILE_H & their;
    // A push promotion needs an empty target square.
    add_pawn_promos((pawns << 8) & BB_RANK_8 & !occ, -8i32, list);
    add_pawn_promos(cap_left & BB_RANK_8, -9i32, list);
    add_pawn_promos(cap_right & BB_RANK_8, -7i32, list);
    add_pawn_moves(cap_left & !BB_RANK_8, -9i32, list);
    add_pawn_moves(cap_right & !BB_RANK_8, -7i32, list);
    add_white_ep(pawns, ep_sq, list);
    proof {
        assert(list.view_moves() =~= base + white_pawn_captures(pawns, their, ep_sq, occ));
    }
}

pub fn gen_pawn_captures_black(pawns: Bb, their: Bb, ep_sq: Square, occ: Bb, list: &mut MoveList)
    requires
        old(list).wf(),
        ep_sq <= NO_SQUARE,
        old(list).view_moves().len() + black_pawn_captures(pawns, their, ep_sq, occ).len() <= 256,
    ensures
        final(list).wf(),
        old(list).fresh() ==> final(list).fresh(),
        final(list).view_moves() == old(list).view_moves() + black_pawn_captures(
            pawns,
            their,
            ep_sq,
            occ,
        ),
{
    broadcast use group_bit_lemmas;

    let ghost base = list.view_moves();
    let cap_left = (pawns >> 7) & !BB_FILE_A & their;
    let cap_right = (pawns >> 9) & !BB_FILE_H & their;
    add_pawn_promos((pawns >> 8) & BB_RANK_1 & !occ, 8i32, list);
    add_pawn_promos(cap_left & BB_RANK_1, 7i32, list);
    add_pawn_promos(cap_right & BB_RANK_1, 9i32, list);
    add_pawn_moves(cap_left & !BB_RANK_1, 7i32, list);
    add_pawn_moves(cap_right & !BB_RANK_1, 9i32, list);
    add_black_ep(pawns, ep_sq, list);
    proof {
        assert(list.view_moves() =~= base + black_pawn_captures(pawns, their, ep_sq, occ));
    }
}


// ---------------------------------------------------------------- piece moves

/// `x` holds exactly the squares a knight on `s` attacks.
pub open spec fn is_knight_set(x: u64, s: int) -> bool {
    forall|t: int| #[trigger] bit(x, t) <==> knight_hop(s, t)
}

/// `x` holds exactly the squares a king on `s` attacks.
pub open spec fn is_king_set(x: u64, s: int) -> bool {
    forall|t: int| #[trigger] bit(x, t) <==> king_step(s, t)
}

/// The knight attack set of `s`.
pub open spec fn knight_set(s: int) -> u64 {
    choose|x: u64| #[trigger] is_knight_set(x, s)
}

/// The king attack set of `s`.
pub open spec fn king_set(s: int) -> u64 {
    choose|x: u64| #[trigger] is_king_set(x, s)
}

/// The table entries of well-formed attack tables are the leaper attack sets.
pub proof fn lemma_leaper_sets(atk: &AttackTables, s: int)
    requires
        atk.wf(),
        0 <= s < 64,
    ensures
        atk.knight[s] == knight_set(s),
        atk.king[s] == king_set(s),
{
    let x = atk.knight[s];
    assert(is_knight_set(x, s));
    let y = knight_set(s);
    assert(is_knight_set(y, s));
    assert forall|i: int| 0 <= i < 64 implies bit(x, i) == bit(y, i) by {}
    lemma_bits_eq(x, y);
    let x2 = atk.king[s];
    assert(is_king_set(x2, s));
    let y2 = king_set(s);
    assert(is_king_set(y2, s));
    assert forall|i: int| 0 <= i < 64 implies bit(x2, i) == bit(y2, i) by {}
    lemma_bits_eq(x2, y2);
}

/// The squares a piece of kind `kind` (1 knight, 2 bishop, 3 rook, 4 queen, 5 king)
/// on `from` attacks with occupancy `occ`.
pub open spec fn attack_set(kind: int, from: int, occ: u64) -> u64 {
    if kind == 1 {
        knight_set(from)
    } else if kind == 2 {
        bishop_reach(from, occ)
    } else if kind == 3 {
        rook_reach(from, occ)
    } else if kind == 4 {
        rook_reach(from, occ) | bishop_reach(from, occ)
    } else {
        king_set(from)
    }
}

/// The moves of the pieces on `froms`, in order, each to its attacked squares in
/// `mask`.
pub open spec fn piece_moves(froms: Seq<int>, kind: int, occ: u64, mask: u64) -> Seq<Move>
    decreases froms.len(),
{
    if froms.len() == 0 {
        Seq::empty()
    } else {
        from_moves(froms[0], squares_of(attack_set(kind, froms[0], occ) & mask)) + piece_moves(
            froms.drop_first(),
            kind,
            occ,
            mask,
        )
    }
}

/// Appends the moves of the pieces of kind `kind` on `froms`.
fn add_piece_moves(froms: Bb, kind: u8, occ: Bb, mask: Bb, atk: &AttackTables, list: &mut MoveList)
    requires
        old(list).wf(),
        atk.wf(),
        1 <= kind <= 4,
        old(list).view_moves().len() + piece_moves(squares_of(froms), kind as int, occ, mask).len()
            <= 256,
    ensures
        final(list).wf(),
        old(list).fresh() ==> final(list).fresh(),
        final(list).view_moves() == old(list).view_moves() + piece_moves(
            squares_of(froms),
            kind as int,
            occ,
            mask,
        ),
{
    let mut rest = froms;
    let ghost total = old(list).view_moves() + piece_moves(squares_of(froms), kind as int, occ, mask);
    while rest != 0
        invariant
            list.wf(),
            old(list).fresh() ==> list.fresh(),
            atk.wf(),
            1 <= kind <= 4,
            total.len() <= 256,
            list.view_moves() + piece_moves(squares_of(rest), kind as int, occ, mask) == total,
        decreases squares_of(rest).len(),
    {
        let ghost r0 = rest;
        let from = bb_pop_lsb(&mut rest);
        let attacks = if kind == 1 {
            atk.knight[from as usize]
        } else if kind == 2 {
            atk.bishop_attacks(from, occ)
        } else if kind == 3 {
            atk.rook_attacks(from, occ)
        } else {
            atk.queen_attacks(from, occ)
        };
        proof {
            lemma_leaper_sets(atk, from as int);
            assert(attacks == attack_set(kind as int, from as int, occ));
        }
        let ghost part = from_moves(from as int, squares_of(attacks & mask));
        let ghost tail = piece_moves(squares_of(rest), kind as int, occ, mask);
        proof {
            assert(piece_moves(squares_of(r0), kind as int, occ, mask) == part + tail);
        }
        let ghost before = list.view_moves();
        add_moves(from, attacks & mask, list);
        proof {
            assert(before + (part + tail) =~= before + part + tail);
        }
    }
    proof {
        crate::bitboard::lemma_squares_of_zero();
        assert(list.view_moves() + Seq::<Move>::empty() =~= list.view_moves());
    }
}

// ---------------------------------------------------------------- castling

/// The castling right bits (king side, queen side) of a color.
pub open spec fn castle_bits(us: Color) -> (u8, u8) {
    if us == Color::White {
        (CR_WHITE_KINGSIDE, CR_WHITE_QUEENSIDE)
    } else {
        (CR_BLACK_KINGSIDE, CR_BLACK_QUEENSIDE)
    }
}

/// The castling moves of the king of `us` on `k`: with the right held, the squares
/// between king and destination empty, and the king's square, the square it crosses
/// and its destination not attacked. King side first.
pub open spec fn castling_moves(b: Board, k: int, us: Color, occ: u64) -> Seq<Move> {
    let (ks, qs) = castle_bits(us);
    let them = us.opposite();
    (if b.castling & ks != 0 && occ & ((1u64 << ((k + 1) as u64)) | (1u64 << ((k + 2) as u64)))
        == 0 && !attacked_by(b, k, them) && !attacked_by(b, k + 1, them) && !attacked_by(
        b,
        k + 2,
        them,
    ) {
        seq![encode_move(k, k + 2, 3, 0)]
    } else {
        Seq::empty()
    }) + (if b.castling & qs != 0 && occ & ((1u64 << ((k - 1) as u64)) | (1u64 << ((k - 2) as u64))
        | (1u64 << ((k - 3) as u64))) == 0 && !attacked_by(b, k, them) && !attacked_by(
        b,
        k - 1,
        them,
    ) && !attacked_by(b, k - 2, them) {
        seq![encode_move(k, k - 2, 3, 0)]
    } else {
        Seq::empty()
    })
}

/// A castling right held lets the king's path stay on the board.
pub open spec fn castling_in_range(b: Board, k: int, us: Color) -> bool {
    let (ks, qs) = castle_bits(us);
    &&& b.castling & ks != 0 ==> k + 2 < 64
    &&& b.castling & qs != 0 ==> k >= 3
}

pub fn gen_castling(board: &Board, king_sq: Square, us: Color, occ: Bb, list: &mut MoveList)
    requires
        old(list).wf(),
        board.consistent(),
        king_sq < 64,
        castling_in_range(*board, king_sq as int, us),
        old(list).view_moves().len() + castling_moves(*board, king_sq as int, us, occ).len() <= 256,
    ensures
        final(list).wf(),
        old(list).fresh() ==> final(list).fresh(),
        final(list).view_moves() == old(list).view_moves() + castling_moves(
            *board,
            king_sq as int,
            us,
            occ,
        ),
{
    let ghost before = list.view_moves();
    let (ks_right, qs_right) = if us == Color::White {
        (CR_WHITE_KINGSIDE, CR_WHITE_QUEENSIDE)
    } else {
        (CR_BLACK_KINGSIDE, CR_BLACK_QUEENSIDE)
    };
    let them = us.flip();
    if board.castling & ks_right != 0 {
        let path = bb(king_sq + 1) | bb(king_sq + 2);
        if occ & path == 0 && !board.is_attacked_by(king_sq, them) && !board.is_attacked_by(
            king_sq + 1,
            them,
        ) && !board.is_attacked_by(king_sq + 2, them) {
            list.push(make_move_castling(king_sq, king_sq + 2));
        }
    }
    let ghost mid = list.view_moves();
    if board.castling & qs_right != 0 {
        let path = bb(king_sq - 1) | bb(king_sq - 2) | bb(king_sq - 3);
        if occ & path == 0 && !board.is_attacked_by(king_sq, them) && !board.is_attacked_by(
            king_sq - 1,
            them,
        ) && !board.is_attacked_by(king_sq - 2, them) {
            list.push(make_move_castling(king_sq, king_sq - 2));
        }
    }
    proof {
        assert(list.view_moves() =~= before + castling_moves(*board, king_sq as int, us, occ));
    }
}

// ---------------------------------------------------------------- generation

/// The king moves of the side to move: steps to squares in `mask`, then (for the full
/// generator) castling; nothing without a king.
pub open spec fn king_moves(b: Board, mask: u64, with_castling: bool) -> Seq<Move> {
    let ui = b.side.idx();
    let k = b.king_sq[ui];
    if k != NO_SQUARE {
        from_moves(k as int, squares_of(king_set(k as int) & mask)) + if with_castling {
            castling_moves(b, k as int, b.side, b.occ_all)
        } else {
            Seq::empty()
        }
    } else {
        Seq::empty()
    }
}

/// The pseudo-legal moves of the side to move, in generation order: pawns, knights,
/// bishops, rooks, queens (each piece by square), then the king and castling.
pub open spec fn pseudo_moves(b: Board) -> Seq<Move> {
    let ui = b.side.idx();
    let occ = b.occ_all;
    let our = b.occ[ui];
    let their = b.occ[1 - ui];
    (if b.side == Color::White {
        white_pawn_moves(b.pieces[ui][0], their, b.ep_sq, occ)
    } else {
        black_pawn_moves(b.pieces[ui][0], their, b.ep_sq, occ)
    }) + piece_moves(squares_of(b.pieces[ui][1]), 1, occ, !our) + piece_moves(
        squares_of(b.pieces[ui][2]),
        2,
        occ,
        !our,
    ) + piece_moves(squares_of(b.pieces[ui][3]), 3, occ, !our) + piece_moves(
        squares_of(b.pieces[ui][4]),
        4,
        occ,
        !our,
    ) + king_moves(b, !our, true)
}

/// The captures and promotions of the side to move, in generation order.
pub open spec fn capture_moves(b: Board) -> Seq<Move> {
    let ui = b.side.idx();
    let occ = b.occ_all;
    let their = b.occ[1 - ui];
    (if b.side == Color::White {
        white_pawn_captures(b.pieces[ui][0], their, b.ep_sq, occ)
    } else {
        black_pawn_captures(b.pieces[ui][0], their, b.ep_sq, occ)
    }) + piece_moves(squares_of(b.pieces[ui][1]), 1, occ, their) + piece_moves(
        squares_of(b.pieces[ui][2]),
        2,
        occ,
        their,
    ) + piece_moves(squares_of(b.pieces[ui][3]), 3, occ, their) + piece_moves(
        squares_of(b.pieces[ui][4]),
        4,
        occ,
        their,
    ) + king_moves(b, their, false)
}

/// The boards the generators take: consistent, with the castling rights of the side
/// to move leaving its king's path on the board.
pub open spec fn generable(b: Board) -> bool {
    &&& b.consistent()
    &&& b.king_sq[b.side.idx()] != NO_SQUARE ==> castling_in_range(
        b,
        b.king_sq[b.side.idx()] as int,
        b.side,
    )
}

/// All pseudo-legal moves of the side to move.
pub fn gen_moves(board: &Board, atk: &AttackTables) -> (list: MoveList)
    requires
        atk.wf(),
        generable(*board),
        pseudo_moves(*board).len() <= 256,
    ensures
        list.wf(),
        list.fresh(),
        list.view_moves() == pseudo_moves(*board),
{
    let mut list = MoveList::new();
    let us = board.side;
    let them = us.flip();
    let ui = us.index();
    let ti = them.index();
    let occ = board.occ_all;
    let our = board.occ[ui];
    let their = board.occ[ti];
    let pawns = board.pieces[ui][0];
    if us == Color::White {
        gen_pawn_moves_white(pawns, their, board.ep_sq, occ, &mut list);
    } else {
        gen_pawn_moves_black(pawns, their, board.ep_sq, occ, &mut list);
    }
    add_piece_moves(board.pieces[ui][1], 1, occ, !our, atk, &mut list);
    add_piece_moves(board.pieces[ui][2], 2, occ, !our, atk, &mut list);
    add_piece_moves(board.pieces[ui][3], 3, occ, !our, atk, &mut list);
    add_piece_moves(board.pieces[ui][4], 4, occ, !our, atk, &mut list);
    let ghost before_king = list.view_moves();
    let king_sq = board.king_sq[ui];
    if king_sq != NO_SQUARE {
        proof {
            lemma_leaper_sets(atk, king_sq as int);
        }
        let targets = atk.king[king_sq as usize] & !our;
        add_moves(king_sq, targets, &mut list);
        gen_castling(board, king_sq, us, occ, &mut list);
    }
    proof {
        assert(list.view_moves() =~= pseudo_moves(*board));
    }
    list
}

/// The captures and promotions of the side to move.
pub fn gen_captures(board: &Board, atk: &AttackTables) -> (list: MoveList)
    requires
        atk.wf(),
        board.consistent(),
        capture_moves(*board).len() <= 256,
    ensures
        list.wf(),
        list.fresh(),
        list.view_moves() == capture_moves(*board),
{
    let mut list = MoveList::new();
    let us = board.side;
    let them = us.flip();
    let ui = us.index();
    let ti = them.index();
    let occ = board.occ_all;
    let their = board.occ[ti];
    let pawns = board.pieces[ui][0];
    if us == Color::White {
        gen_pawn_captures_white(pawns, their, board.ep_sq, occ, &mut list);
    } else {
        gen_pawn_captures_black(pawns, their, board.ep_sq, occ, &mut list);
    }
    add_piece_moves(board.pieces[ui][1], 1, occ, their, atk, &mut list);
    add_piece_moves(board.pieces[ui][2], 2, occ, their, atk, &mut list);
    add_piece_moves(board.pieces[ui][3], 3, occ, their, atk, &mut list);
    add_piece_moves(board.pieces[ui][4], 4, occ, their, atk, &mut list);
    let king_sq = board.king_sq[ui];
    if king_sq != NO_SQUARE {
        proof {
            lemma_leaper_sets(atk, king_sq as int);
        }
        add_moves(king_sq, atk.king[king_sq as usize] & their, &mut list);
    }
    proof {
        assert(list.view_moves() =~= capture_moves(*board));
    }
    list
}

// ---------------------------------------------------------------- quiet checks

/// The squares the enemy king could be checked from directly by a piece of kind
/// `kind` (knight, bishop, rook, queen) moving to an empty square.
pub open spec fn direct_check_squares(b: Board, kind: int) -> u64 {
    let k = b.king_sq[b.side.opposite().idx()] as int;
    let occ = b.occ_all;
    let kb = bishop_reach(k, occ);
    let kr = rook_reach(k, occ);
    if kind == 1 {
        !occ & knight_set(k)
    } else if kind == 2 {
        !occ & kb
    } else if kind == 3 {
        !occ & kr
    } else {
        !occ & (kb | kr)
    }
}

/// A move of a knight, bishop, rook or queen of the side to move to a square from
/// which it attacks the enemy king.
pub open spec fn direct_check(b: Board, m: Move) -> bool {
    let p = b.sq_piece[from_of(m) as int];
    let kind = type_of_piece(p).idx();
    &&& p != PIECE_NONE
    &&& color_of_piece(p) == b.side
    &&& 1 <= kind <= 4
    &&& direct_check_squares(b, kind) & (1u64 << (to_of(m) as u64)) != 0
}

/// A move that takes nothing and is neither en passant nor castling.
pub open spec fn quiet_move(b: Board, m: Move) -> bool {
    &&& b.sq_piece[to_of(m) as int] == PIECE_NONE
    &&& flags_of(m) != MF_EN_PASSANT
    &&& flags_of(m) != MF_CASTLING
}

/// A move that uncovers a check: once its piece has left its square for the target,
/// another bishop, rook or queen of the side to move attacks the enemy king along a
/// line on which none did before.
pub open spec fn discovers_check(b: Board, m: Move) -> bool {
    let ui = b.side.idx();
    let k = b.king_sq[b.side.opposite().idx()] as int;
    let occ = b.occ_all;
    let fb = 1u64 << (from_of(m) as u64);
    let occ2 = (occ & !fb) | (1u64 << (to_of(m) as u64));
    let bq = (b.pieces[ui][2] | b.pieces[ui][4]) & !fb;
    let rq = (b.pieces[ui][3] | b.pieces[ui][4]) & !fb;
    ||| (bishop_reach(k, occ2) & bq != 0 && bishop_reach(k, occ) & bq == 0)
    ||| (rook_reach(k, occ2) & rq != 0 && rook_reach(k, occ) & rq == 0)
}

/// The pseudo-legal quiet moves that uncover a check and are no direct check.
pub open spec fn discovered_pred(b: Board) -> spec_fn(Move) -> bool {
    |m: Move| quiet_move(b, m) && discovers_check(b, m) && !direct_check(b, m)
}

/// The quiet checks of the side to move: first the moves of its knights, bishops,
/// rooks and queens to empty squares from which they attack the enemy king, then,
/// in generation order, the other quiet moves that uncover a check; none when the
/// enemy has no king.
pub open spec fn quiet_check_moves(b: Board) -> Seq<Move> {
    let ui = b.side.idx();
    let k = b.king_sq[b.side.opposite().idx()];
    if k == NO_SQUARE {
        Seq::empty()
    } else {
        let occ = b.occ_all;
        piece_moves(squares_of(b.pieces[ui][1]), 1, occ, direct_check_squares(b, 1))
            + piece_moves(squares_of(b.pieces[ui][2]), 2, occ, direct_check_squares(b, 2))
            + piece_moves(squares_of(b.pieces[ui][3]), 3, occ, direct_check_squares(b, 3))
            + piece_moves(squares_of(b.pieces[ui][4]), 4, occ, direct_check_squares(b, 4))
            + pseudo_moves(b).filter(discovered_pred(b))
    }
}

/// Whether a move is a direct check, as `direct_check` says.
fn is_direct_check(board: &Board, atk: &AttackTables, m: Move) -> (r: bool)
    requires
        atk.wf(),
        board.consistent(),
        board.king_sq[board.side.opposite().idx()] < 64,
    ensures
        r == direct_check(*board, m),
{
    let p = board.sq_piece[move_from(m) as usize];
    if p == PIECE_NONE {
        return false;
    }
    if piece_color(p) != board.side {
        return false;
    }
    let kind = piece_type(p).index();
    if kind < 1 || kind > 4 {
        return false;
    }
    let k = board.king_sq[board.side.flip().index()];
    let occ = board.occ_all;
    proof {
        lemma_leaper_sets(atk, k as int);
    }
    let squares = if kind == 1 {
        !occ & atk.knight[k as usize]
    } else if kind == 2 {
        !occ & atk.bishop_attacks(k, occ)
    } else if kind == 3 {
        !occ & atk.rook_attacks(k, occ)
    } else {
        !occ & (atk.bishop_attacks(k, occ) | atk.rook_attacks(k, occ))
    };
    squares & bb(move_to(m)) != 0
}

/// Whether a move uncovers a check, as `discovers_check` says.
fn is_discovered_check(board: &Board, atk: &AttackTables, m: Move) -> (r: bool)
    requires
        atk.wf(),
        board.king_sq[board.side.opposite().idx()] < 64,
    ensures
        r == discovers_check(*board, m),
{
    let ui = board.side.index();
    let k = board.king_sq[board.side.flip().index()];
    let occ = board.occ_all;
    let fb = bb(move_from(m));
    let occ2 = (occ & !fb) | bb(move_to(m));
    let bq = (board.pieces[ui][2] | board.pieces[ui][4]) & !fb;
    let rq = (board.pieces[ui][3] | board.pieces[ui][4]) & !fb;
    (atk.bishop_attacks(k, occ2) & bq != 0 && atk.bishop_attacks(k, occ) & bq == 0) || (
    atk.rook_attacks(k, occ2) & rq != 0 && atk.rook_attacks(k, occ) & rq == 0)
}

proof fn lemma_filter_prefix_len(s: Seq<Move>, pred: spec_fn(Move) -> bool, i: int)
    requires
        0 <= i <= s.len(),
    ensures
        s.take(i).filter(pred).len() <= s.filter(pred).len(),
{
    assert(s =~= s.take(i) + s.skip(i));
    Seq::filter_distributes_over_add(s.take(i), s.skip(i), pred);
}

/// Generate quiet (non-capture) moves that give check.
/// Used in quiescence search to find tactical checks.
/// Generates knight and slider checks, and discovered checks.
pub fn gen_quiet_checks(board: &Board, atk: &AttackTables) -> (list: MoveList)
    requires
        atk.wf(),
        generable(*board),
        pseudo_moves(*board).len() <= 256,
        quiet_check_moves(*board).len() <= 256,
    ensures
        list.wf(),
        list.fresh(),
        list.view_moves() == quiet_check_moves(*board),
{
    let mut list = MoveList::new();
    let us = board.side;
    let ui = us.index();
    let ti = us.flip().index();
    let occ = board.occ_all;
    let their_king_sq = board.king_sq[ti];
    if their_king_sq == NO_SQUARE {
        proof {
            assert(list.view_moves() =~= quiet_check_moves(*board));
        }
        return list;
    }
    proof {
        lemma_leaper_sets(atk, their_king_sq as int);
    }
    // Knight checks: knight moves to a square that attacks the enemy king
    let king_atk = atk.knight[their_king_sq as usize];
    add_piece_moves(board.pieces[ui][1], 1, occ, !occ & king_atk, atk, &mut list);
    // Bishop checks: bishop moves to a square on enemy king's diagonals
    let king_bishop_rays = atk.bishop_attacks(their_king_sq, occ);
    add_piece_moves(board.pieces[ui][2], 2, occ, !occ & king_bishop_rays, atk, &mut list);
    // Rook checks: rook moves to a square on enemy king's rank/file
    let king_rook_rays = atk.rook_attacks(their_king_sq, occ);
    add_piece_moves(board.pieces[ui][3], 3, occ, !occ & king_rook_rays, atk, &mut list);
    // Queen checks: queen moves that directly check the king
    let king_queen_rays = king_bishop_rays | king_rook_rays;
    add_piece_moves(board.pieces[ui][4], 4, occ, !occ & king_queen_rays, atk, &mut list);
    let ghost direct = list.view_moves();
    let ghost b = *board;
    proof {
        assert(direct =~= piece_moves(squares_of(b.pieces[ui as int][1]), 1, occ, direct_check_squares(b, 1))
            + piece_moves(squares_of(b.pieces[ui as int][2]), 2, occ, direct_check_squares(b, 2))
            + piece_moves(squares_of(b.pieces[ui as int][3]), 3, occ, direct_check_squares(b, 3))
            + piece_moves(squares_of(b.pieces[ui as int][4]), 4, occ, direct_check_squares(b, 4)));
    }
    // Discovered checks: quiet moves that unmask a slider on the enemy king
    let all = gen_moves(board, atk);
    let ghost ms = pseudo_moves(b);
    let ghost pred = discovered_pred(b);
    let mut i: usize = 0;
    proof {
        assert(ms.take(0) =~= Seq::<Move>::empty());
        reveal(Seq::filter);
        assert(list.view_moves() =~= direct + ms.take(0).filter(pred));
    }
    while i < all.count
        invariant
            b == *board,
            atk.wf(),
            b.consistent(),
            b.king_sq[b.side.opposite().idx()] < 64,
            all.wf(),
            all.view_moves() == ms,
            ms == pseudo_moves(b),
            pred == discovered_pred(b),
            i <= all.count,
            list.wf(),
            list.fresh(),
            list.view_moves() == direct + ms.take(i as int).filter(pred),
            quiet_check_moves(b) == direct + ms.filter(pred),
            quiet_check_moves(b).len() <= 256,
        decreases all.count - i,
    {
        let m = all.moves[i];
        proof {
            assert(m == ms[i as int]);
            assert(ms.take(i + 1).drop_last() =~= ms.take(i as int));
            assert(ms.take(i + 1).last() == m);
            reveal(Seq::filter);
        }
        let to = move_to(m);
        let f = move_flags(m);
        let take = board.sq_piece[to as usize] == PIECE_NONE && f != MF_EN_PASSANT && f != MF_CASTLING
            && is_discovered_check(board, atk, m) && !is_direct_check(board, atk, m);
        proof {
            assert(take == pred(m));
        }
        if take {
            proof {
                lemma_filter_prefix_len(ms, pred, i + 1);
                assert(ms.take(i + 1).filter(pred) == ms.take(i as int).filter(pred).push(m));
                assert(list.view_moves().len() == list.count);
                assert((direct + ms.filter(pred)).len() == direct.len() + ms.filter(pred).len());
                assert(direct.len() + ms.take(i + 1).filter(pred).len() <= 256);
            }
            list.push(m);
            proof {
                assert(list.view_moves() =~= direct + ms.take(i + 1).filter(pred));
            }
        } else {
            proof {
                assert(ms.take(i + 1).filter(pred) == ms.take(i as int).filter(pred));
            }
        }
        i += 1;
    }
    proof {
        assert(ms.take(all.count as int) =~= ms);
        assert(list.view_moves() =~= quiet_check_moves(*board));
    }
    list
}

} // verus!
