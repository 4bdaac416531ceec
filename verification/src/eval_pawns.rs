use vstd::prelude::*;
use crate::attacks::{pawn_attacks_black, pawn_attacks_white};
use crate::bitboard::{bb, bb_pop_lsb, bb_popcount, bit, group_bit_lemmas, lemma_and_single, popcount, squares_of};
use crate::board::Board;
use crate::eval::{lemma_and_zero_iff, lemma_squares_in_range, passed_pawn_bonuses, passer_value, clear_ahead, sign_of, sum_over, PassedPawnContext};
use crate::eval_terms::{is_behind_inclusive, lemma_file_rank_masks, ranks_ahead, ranks_behind_inclusive, BACKWARD_PAWN_PENALTY, DOUBLED_PAWN_PENALTY, ISOLATED_PAWN_PENALTY, PAWN_CHAIN_BONUS};
use crate::types::{Bb, Color, Square, BB_FILES, BB_FILE_A, BB_FILE_H, BB_RANKS, file_of, rank_of, sq_file, sq_rank};

verus! {

// ---------------------------------------------------------------- pawn attacks and files

/// The squares that white pawns on `p` attack.
pub open spec fn white_pawn_attacks(p: u64) -> u64 {
    ((p << 9u64) & !BB_FILE_A) | ((p << 7u64) & !BB_FILE_H)
}

/// The squares that black pawns on `p` attack.
pub open spec fn black_pawn_attacks(p: u64) -> u64 {
    ((p >> 7u64) & !BB_FILE_A) | ((p >> 9u64) & !BB_FILE_H)
}

/// The squares that pawns of `color` on `p` attack.
pub open spec fn pawn_attacks_by(color: Color, p: u64) -> u64 {
    if color == Color::White {
        white_pawn_attacks(p)
    } else {
        black_pawn_attacks(p)
    }
}

/// The attacks of the pawns `p` of `color`.
pub fn pawn_attacks_of(color: Color, p: Bb) -> (r: Bb)
    ensures
        r == pawn_attacks_by(color, p),
{
    if color == Color::White {
        pawn_attacks_white(p)
    } else {
        pawn_attacks_black(p)
    }
}

/// The files beside file `f`.
pub open spec fn adjacent_files(f: int) -> u64 {
    (if f > 0 {
        BB_FILES[f - 1]
    } else {
        0u64
    }) | (if f < 7 {
        BB_FILES[f + 1]
    } else {
        0u64
    })
}

pub fn adjacent_files_of(file: u8) -> (r: Bb)
    requires
        file < 8,
    ensures
        r == adjacent_files(file as int),
{
    let left = if file > 0 {
        BB_FILES[(file - 1) as usize]
    } else {
        0
    };
    let right = if file < 7 {
        BB_FILES[(file + 1) as usize]
    } else {
        0
    };
    left | right
}

// ---------------------------------------------------------------- backward pawns

/// A pawn is backward when it has own pawns on the adjacent files, an enemy pawn
/// attacks its advance square, and no own pawn on an adjacent file stands strictly
/// behind it.
pub open spec fn backward_pawn(
    color: Color,
    sq: int,
    rank: int,
    adj: u64,
    our: u64,
    their_att: u64,
) -> bool {
    &&& our & adj != 0
    &&& if color == Color::White {
        rank < 7
    } else {
        rank > 0
    }
    &&& bit(
        their_att,
        if color == Color::White {
            sq + 8
        } else {
            sq - 8
        },
    )
    &&& forall|s: int|
        !(#[trigger] bit(our, s) && bit(adj, s) && is_behind_inclusive(color, rank, s) && rank_of(s)
            != rank)
}

pub fn is_backward_pawn(
    color: Color,
    sq: Square,
    rank: u8,
    adj_files: Bb,
    our_pawns: Bb,
    their_pawn_attacks_bb: Bb,
) -> (r: bool)
    requires
        sq < 64,
        rank as int == rank_of(sq as int),
    ensures
        r == backward_pawn(color, sq as int, rank as int, adj_files, our_pawns, their_pawn_attacks_bb),
{
    // Must not be isolated (handled separately)
    if our_pawns & adj_files == 0 {
        return false;
    }
    let advance_sq = if color == Color::White {
        if rank >= 7 {
            return false;
        }
        sq + 8
    } else {
        if rank == 0 {
            return false;
        }
        sq - 8
    };
    proof {
        lemma_and_single(their_pawn_attacks_bb, advance_sq as int);
    }
    // Advance square must be attacked by enemy pawn
    if their_pawn_attacks_bb & bb(advance_sq) == 0 {
        return false;
    }
    // No friendly pawn on adjacent files strictly behind.
    let behind = ranks_behind_inclusive(color, rank, adj_files);
    let support_mask = behind & !BB_RANKS[rank as usize];
    proof {
        broadcast use group_bit_lemmas;

        lemma_and_zero_iff(our_pawns, support_mask);
        assert forall|s: int| #[trigger]
            bit(support_mask, s) == (bit(adj_files, s) && is_behind_inclusive(color, rank as int, s)
                && rank_of(s) != rank) by {
            if 0 <= s < 64 {
                lemma_file_rank_masks(s);
            }
        }
    }
    our_pawns & support_mask == 0
}

// ---------------------------------------------------------------- pawn structure

/// What the passed-pawn terms read of the pawn of `color` on `s`.
pub open spec fn passer_ctx(b: Board, color: Color, s: int) -> PassedPawnContext {
    PassedPawnContext {
        sq: s as u8,
        rank: rank_of(s) as u8,
        file: file_of(s) as u8,
        file_bb: BB_FILES[file_of(s)],
        adj_files: adjacent_files(file_of(s)),
        our_pawns: b.pieces[color.idx()][0],
        their_pawns: b.pieces[color.opposite().idx()][0],
        promo_dist: (if color == Color::White {
            7 - rank_of(s)
        } else {
            rank_of(s)
        }) as u8,
    }
}

/// The pawn of `color` on `s` is passed: no enemy pawn ahead on its file or the
/// adjacent files, and no own pawn ahead on its file.
pub open spec fn is_passed(b: Board, color: Color, s: int) -> bool {
    let f = file_of(s);
    &&& clear_ahead(
        b.pieces[color.opposite().idx()][0],
        color,
        rank_of(s),
        BB_FILES[f] | adjacent_files(f),
    )
    &&& clear_ahead(b.pieces[color.idx()][0], color, rank_of(s), BB_FILES[f])
}

/// The (mg, eg) terms of the pawn of `color` on `s`, signed for the color: doubled,
/// isolated and backward penalties and the passed-pawn bonus.
pub open spec fn pawn_term(b: Board, color: Color, s: int) -> (int, int) {
    let our = b.pieces[color.idx()][0];
    let their = b.pieces[color.opposite().idx()][0];
    let f = file_of(s);
    let adj = adjacent_files(f);
    let doubled = popcount(our & BB_FILES[f]) > 1;
    let isolated = our & adj == 0;
    let backward = backward_pawn(
        color,
        s,
        rank_of(s),
        adj,
        our,
        pawn_attacks_by(color.opposite(), their),
    );
    let pv = if is_passed(b, color, s) {
        passer_value(b, color, passer_ctx(b, color, s))
    } else {
        (0, 0)
    };
    let mg = (if doubled {
        -5int
    } else {
        0
    }) + (if isolated {
        -10int
    } else {
        0
    }) + (if backward {
        -8int
    } else {
        0
    });
    let eg = (if doubled {
        -10int
    } else {
        0
    }) + (if isolated {
        -20int
    } else {
        0
    }) + (if backward {
        -12int
    } else {
        0
    });
    (sign_of(color) * mg + pv.0, sign_of(color) * eg + pv.1)
}

pub open spec fn pawn_term_mg(b: Board, color: Color) -> spec_fn(int) -> int {
    |s: int| pawn_term(b, color, s).0
}

pub open spec fn pawn_term_eg(b: Board, color: Color) -> spec_fn(int) -> int {
    |s: int| pawn_term(b, color, s).1
}

/// The pawn structure of one side: the terms of its pawns and a bonus per pawn that
/// an own pawn defends, signed for the color.
pub open spec fn pawn_side_value(b: Board, color: Color) -> (int, int) {
    let our = b.pieces[color.idx()][0];
    let sqs = squares_of(our);
    let chain = popcount(pawn_attacks_by(color, our) & our);
    (
        sum_over(sqs, pawn_term_mg(b, color)) + sign_of(color) * chain * 3,
        sum_over(sqs, pawn_term_eg(b, color)) + sign_of(color) * chain * 5,
    )
}

/// The pawn structure balance, white plus black.
pub open spec fn pawn_structure_value(b: Board) -> (int, int) {
    let w = pawn_side_value(b, Color::White);
    let k = pawn_side_value(b, Color::Black);
    (w.0 + k.0, w.1 + k.1)
}

/// The terms of one pawn.
fn pawn_terms(board: &Board, color: Color, sq: Square) -> (r: (i32, i32))
    requires
        board.consistent(),
        sq < 64,
    ensures
        (r.0 as int, r.1 as int) == pawn_term(*board, color, sq as int),
        -118 <= r.0 <= 118,
        -262 <= r.1 <= 262,
{
    let ci = color.index();
    let ti = color.flip().index();
    let our_pawns = board.pieces[ci][0];
    let their_pawns = board.pieces[ti][0];
    let their_pawn_attacks_bb = pawn_attacks_of(color.flip(), their_pawns);
    let file = sq_file(sq);
    let rank = sq_rank(sq);
    let file_bb = BB_FILES[file as usize];
    let adj_files = adjacent_files_of(file);
    let mut mg: i32 = 0;
    let mut eg: i32 = 0;
    // Doubled pawns
    if bb_popcount(our_pawns & file_bb) > 1 {
        mg = mg + DOUBLED_PAWN_PENALTY.0;
        eg = eg + DOUBLED_PAWN_PENALTY.1;
    }
    // Isolated pawn
    if our_pawns & adj_files == 0 {
        mg = mg + ISOLATED_PAWN_PENALTY.0;
        eg = eg + ISOLATED_PAWN_PENALTY.1;
    }
    // Backward pawn
    if is_backward_pawn(color, sq, rank, adj_files, our_pawns, their_pawn_attacks_bb) {
        mg = mg + BACKWARD_PAWN_PENALTY.0;
        eg = eg + BACKWARD_PAWN_PENALTY.1;
    }
    let (smg, seg) = if color == Color::White {
        (mg, eg)
    } else {
        (-mg, -eg)
    };
    // Passed pawn
    let ahead_mask = ranks_ahead(color, rank, file_bb | adj_files);
    let own_ahead = ranks_ahead(color, rank, file_bb);
    let promo_dist = if color == Color::White {
        7 - rank
    } else {
        rank
    };
    proof {
        broadcast use group_bit_lemmas;

        lemma_and_zero_iff(their_pawns, ahead_mask);
        lemma_and_zero_iff(our_pawns, own_ahead);
    }
    if their_pawns & ahead_mask == 0 && our_pawns & own_ahead == 0 {
        let passed = PassedPawnContext {
            sq,
            rank,
            file,
            file_bb,
            adj_files,
            our_pawns,
            their_pawns,
            promo_dist,
        };
        proof {
            assert(passed == passer_ctx(*board, color, sq as int));
        }
        let (pmg, peg) = passed_pawn_bonuses(board, color, passed);
        (smg + pmg, seg + peg)
    } else {
        (smg, seg)
    }
}

/// The pawn structure of one side.
fn pawn_side(board: &Board, color: Color) -> (r: (i32, i32))
    requires
        board.consistent(),
    ensures
        (r.0 as int, r.1 as int) == pawn_side_value(*board, color),
        -7744 <= r.0 <= 7744,
        -17088 <= r.1 <= 17088,
{
    let ci = color.index();
    let our_pawns = board.pieces[ci][0];
    let mut pawns = our_pawns;
    let mut mg: i32 = 0;
    let mut eg: i32 = 0;
    proof {
        lemma_squares_in_range(our_pawns);
    }
    let ghost all = squares_of(our_pawns);
    while pawns != 0
        invariant
            board.consistent(),
            ci == color.idx(),
            our_pawns == board.pieces[ci as int][0],
            all == squares_of(our_pawns),
            all.len() <= 64,
            squares_of(pawns).len() <= all.len(),
            mg + sum_over(squares_of(pawns), pawn_term_mg(*board, color)) == sum_over(all, pawn_term_mg(*board, color)),
            eg + sum_over(squares_of(pawns), pawn_term_eg(*board, color)) == sum_over(all, pawn_term_eg(*board, color)),
            -118 * (all.len() - squares_of(pawns).len()) <= mg <= 118 * (all.len() - squares_of(pawns).len()),
            -262 * (all.len() - squares_of(pawns).len()) <= eg <= 262 * (all.len() - squares_of(pawns).len()),
            forall|i: int| 0 <= i < squares_of(pawns).len() ==> 0 <= #[trigger] squares_of(pawns)[i] < 64,
        decreases squares_of(pawns).len(),
    {
        let ghost r0 = pawns;
        let sq = bb_pop_lsb(&mut pawns);
        proof {
            assert(squares_of(r0)[0] == sq);
            assert(squares_of(pawns) == squares_of(r0).drop_first());
        }
        let (tm, te) = pawn_terms(board, color, sq);
        mg = mg + tm;
        eg = eg + te;
    }
    proof {
        crate::bitboard::lemma_squares_of_zero();
    }
    // Pawn chain
    let protected = pawn_attacks_of(color, our_pawns) & our_pawns;
    let pc = bb_popcount(protected);
    proof {
        crate::bitboard::lemma_popcount_bound(protected);
    }
    let chain_count = pc as i32;
    assert(0 <= chain_count <= 64);
    assert(PAWN_CHAIN_BONUS.0 == 3 && PAWN_CHAIN_BONUS.1 == 5);
    let chain_mg = chain_count * PAWN_CHAIN_BONUS.0;
    let chain_eg = chain_count * PAWN_CHAIN_BONUS.1;
    if color == Color::White {
        (mg + chain_mg, eg + chain_eg)
    } else {
        (mg - chain_mg, eg - chain_eg)
    }
}

/// The pawn structure terms, white plus black.
pub fn pawn_structure(board: &Board) -> (r: (i32, i32))
    requires
        board.consistent(),
    ensures
        (r.0 as int, r.1 as int) == pawn_structure_value(*board),
        -15488 <= r.0 <= 15488,
        -34176 <= r.1 <= 34176,
{
    let w = pawn_side(board, Color::White);
    let b = pawn_side(board, Color::Black);
    (w.0 + b.0, w.1 + b.1)
}

// ---------------------------------------------------------------- pawn evaluation cache

pub const PAWN_CACHE_SIZE: usize = 1024;

/// The slot of a pawn hash key in the cache.
pub open spec fn cache_slot(key: u64) -> int {
    (key % 1024) as int
}

/// What the cache answers for `key`: the score stored in its slot when the slot holds
/// that very key.
pub open spec fn cache_lookup(entries: Seq<(u64, (i32, i32))>, key: u64) -> Option<(i32, i32)> {
    let e = entries[cache_slot(key)];
    if e.0 == key {
        Some(e.1)
    } else {
        None
    }
}

/// Direct-mapped cache for `pawn_structure()` results, keyed by `board.pawn_hash`.
pub struct PawnEvalCache {
    entries: Vec<(u64, (i32, i32))>,
}

impl View for PawnEvalCache {
    type V = Seq<(u64, (i32, i32))>;

    closed spec fn view(&self) -> Seq<(u64, (i32, i32))> {
        self.entries@
    }
}

impl PawnEvalCache {
    /// The cache has its 1024 slots.
    pub closed spec fn wf(&self) -> bool {
        self.entries@.len() == PAWN_CACHE_SIZE
    }

    pub fn new() -> (c: Self)
        ensures
            c.wf(),
            c@.len() == PAWN_CACHE_SIZE,
            forall|i: int| 0 <= i < PAWN_CACHE_SIZE ==> #[trigger] c@[i] == (0u64, (0i32, 0i32)),
    {
        let mut entries: Vec<(u64, (i32, i32))> = Vec::new();
        while entries.len() < PAWN_CACHE_SIZE
            invariant
                entries@.len() <= PAWN_CACHE_SIZE,
                forall|i: int| 0 <= i < entries@.len() ==> #[trigger] entries@[i] == (0u64, (0i32, 0i32)),
            decreases PAWN_CACHE_SIZE - entries@.len(),
        {
            entries.push((0u64, (0i32, 0i32)));
        }
        PawnEvalCache { entries }
    }

    pub fn probe(&self, key: u64) -> (r: Option<(i32, i32)>)
        requires
            self.wf(),
        ensures
            r == cache_lookup(self@, key),
    {
        let idx = (key % 1024) as usize;
        let (stored_key, score) = self.entries[idx];
        if stored_key == key {
            Some(score)
        } else {
            None
        }
    }

    pub fn store(&mut self, key: u64, mg: i32, eg: i32)
        requires
            old(self).wf(),
        ensures
            final(self).wf(),
            final(self)@ == old(self)@.update(cache_slot(key), (key, (mg, eg))),
    {
        let idx = (key % 1024) as usize;
        self.entries.set(idx, (key, (mg, eg)));
    }
}

/// A probe right after a store of the same key gives back the stored score.
pub proof fn lemma_probe_after_store(entries: Seq<(u64, (i32, i32))>, key: u64, mg: i32, eg: i32)
    requires
        entries.len() == PAWN_CACHE_SIZE,
    ensures
        cache_lookup(entries.update(cache_slot(key), (key, (mg, eg))), key) == Some((mg, eg)),
{
}

/// A store leaves the answer for every key of another slot as it was.
pub proof fn lemma_store_keeps_other_slots(
    entries: Seq<(u64, (i32, i32))>,
    key: u64,
    mg: i32,
    eg: i32,
    other: u64,
)
    requires
        entries.len() == PAWN_CACHE_SIZE,
        cache_slot(other) != cache_slot(key),
    ensures
        cache_lookup(entries.update(cache_slot(key), (key, (mg, eg))), other) == cache_lookup(
            entries,
            other,
        ),
{
}

/// A fresh cache answers no key but zero.
pub proof fn lemma_fresh_cache_misses(c: PawnEvalCache, key: u64)
    requires
        c@.len() == PAWN_CACHE_SIZE,
        forall|i: int| 0 <= i < PAWN_CACHE_SIZE ==> #[trigger] c@[i] == (0u64, (0i32, 0i32)),
        key != 0,
    ensures
        cache_lookup(c@, key) is None,
{
    assert(c@[cache_slot(key)] == (0u64, (0i32, 0i32)));
}

} // verus!
