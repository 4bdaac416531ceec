use vstd::prelude::*;
use crate::bitboard::{bb_popcount, popcount};
use crate::board::Board;
use crate::config::div_trunc;
use crate::config::SearchOptions;
use crate::criticality::{sample_bucket, should_probe, CriticalityDecisionKind, CriticalityLabelSource, CriticalityRecord};
use crate::magic::AttackTables;
use crate::movegen::MoveList;
use crate::see::{see_move_ok, see_value, static_exchange_eval};
use crate::types::{
    Color, Move, Score, SCORE_INF, MF_EN_PASSANT, MF_PROMOTION, MOVE_NONE, PIECE_NONE, flags_of, from_of,
    material_of, move_flags, move_from, move_promo_pt, move_to, piece_type, promo_of, to_of,
    type_of_piece,
};

verus! {

/// The deepest ply the per-ply tables cover.
pub const MAX_PLY: usize = 128;
/// Games without a moves-to-go count are planned over this many moves.
pub const DEFAULT_MOVES_TO_GO: i64 = 30;
/// The least time a move is given, in milliseconds.
pub const MIN_MOVE_TIME_MS: i64 = 10;
/// The hard limit is at most this multiple of the soft budget...
pub const HARD_TIME_MULTIPLIER: u64 = 5;
/// ...and at most this many milliseconds above it.
pub const HARD_TIME_ADDITIVE_CAP: u64 = 2000;
/// Kept back from the clock for communication delays.
pub const MOVE_OVERHEAD_MS: i64 = 30;

// ---------------------------------------------------------------- statistics and limits

/// Counters of what the search did.
#[derive(Clone, Copy, Debug)]
pub struct SearchStats {
    pub nodes: u64,
    pub qnodes: u64,
    pub tt_probes: u64,
    pub tt_hits: u64,
    pub tt_cutoffs: u64,
    pub beta_cutoffs: u64,
    pub first_move_cutoffs: u64,
    pub null_move_tries: u64,
    pub null_move_cutoffs: u64,
    pub rfp_cutoffs: u64,
    pub lmr_attempts: u64,
    pub lmr_actual_reductions: u64,
    pub lmr_re_searches: u64,
    pub see_win_caps: u64,
    pub see_equal_caps: u64,
    pub see_loss_caps: u64,
    pub see_loss_searched: u64,
    pub iid_triggers: u64,
    pub iid_successes: u64,
    pub tb_hits: u64,
}

impl Default for SearchStats {
    fn default() -> (s: Self)
        ensures
            s.nodes == 0 && s.qnodes == 0 && s.tt_probes == 0 && s.tt_hits == 0 && s.tt_cutoffs
                == 0 && s.beta_cutoffs == 0 && s.first_move_cutoffs == 0 && s.null_move_tries == 0
                && s.null_move_cutoffs == 0 && s.rfp_cutoffs == 0 && s.lmr_attempts == 0
                && s.lmr_actual_reductions == 0 && s.lmr_re_searches == 0 && s.see_win_caps == 0
                && s.see_equal_caps == 0 && s.see_loss_caps == 0 && s.see_loss_searched == 0
                && s.iid_triggers == 0 && s.iid_successes == 0 && s.tb_hits == 0,
    {
        SearchStats {
            nodes: 0,
            qnodes: 0,
            tt_probes: 0,
            tt_hits: 0,
            tt_cutoffs: 0,
            beta_cutoffs: 0,
            first_move_cutoffs: 0,
            null_move_tries: 0,
            null_move_cutoffs: 0,
            rfp_cutoffs: 0,
            lmr_attempts: 0,
            lmr_actual_reductions: 0,
            lmr_re_searches: 0,
            see_win_caps: 0,
            see_equal_caps: 0,
            see_loss_caps: 0,
            see_loss_searched: 0,
            iid_triggers: 0,
            iid_successes: 0,
            tb_hits: 0,
        }
    }
}

/// What bounds a search: depth, nodes (0 = unlimited), fixed move time in
/// milliseconds (0 = unlimited) and the clocks.
#[derive(Clone, Copy, Debug)]
pub struct Limits {
    pub max_depth: u32,
    pub nodes: u64,
    pub move_time: u64,
    pub wtime: i64,
    pub btime: i64,
    pub winc: i64,
    pub binc: i64,
    pub moves_to_go: i32,
}

impl Default for Limits {
    fn default() -> (l: Self)
        ensures
            l.max_depth == 64,
            l.nodes == 0,
            l.move_time == 0,
            l.wtime == 0,
            l.btime == 0,
            l.winc == 0,
            l.binc == 0,
            l.moves_to_go == 0,
    {
        Limits {
            max_depth: 64,
            nodes: 0,
            move_time: 0,
            wtime: 0,
            btime: 0,
            winc: 0,
            binc: 0,
            moves_to_go: 0,
        }
    }
}

/// The outcome of a search: best move, score, depth reached, nodes and the
/// principal variation.
#[derive(Clone, Debug)]
pub struct SearchResult {
    pub best_move: Move,
    pub score: Score,
    pub depth: u32,
    pub nodes: u64,
    pub pv: Vec<Move>,
}

/// What the search keeps per ply: the move being searched and the static
/// evaluation, when there is one.
#[derive(Clone, Copy, Debug)]
pub struct PlyInfo {
    pub current_move: Move,
    pub static_eval: Option<Score>,
}

impl Default for PlyInfo {
    fn default() -> (p: Self)
        ensures
            p.current_move == MOVE_NONE,
            p.static_eval is None,
    {
        PlyInfo { current_move: MOVE_NONE, static_eval: None }
    }
}

// ---------------------------------------------------------------- time management

pub open spec fn max_int(a: int, b: int) -> int {
    if a >= b {
        a
    } else {
        b
    }
}

pub open spec fn min_int(a: int, b: int) -> int {
    if a <= b {
        a
    } else {
        b
    }
}

/// The clock time left to `side` after the move overhead, at least the minimum
/// move time.
pub open spec fn usable_time(l: Limits, side: Color) -> int {
    let time = if side == Color::White {
        l.wtime
    } else {
        l.btime
    };
    max_int(time - MOVE_OVERHEAD_MS, MIN_MOVE_TIME_MS as int)
}

/// The soft budget before it is clamped: the usable time over the moves to go,
/// plus half the increment.
pub open spec fn raw_budget(l: Limits, side: Color) -> int {
    let inc = if side == Color::White {
        l.winc
    } else {
        l.binc
    };
    let mtg = if l.moves_to_go > 0 {
        l.moves_to_go as int
    } else {
        DEFAULT_MOVES_TO_GO as int
    };
    div_trunc(usable_time(l, side), mtg) + div_trunc(inc as int, 2)
}

/// The soft budget: the raw budget between the minimum move time and the usable
/// time.
pub open spec fn soft_budget(l: Limits, side: Color) -> int {
    let u = usable_time(l, side);
    let r = raw_budget(l, side);
    if r < MIN_MOVE_TIME_MS {
        MIN_MOVE_TIME_MS as int
    } else if r > u {
        u
    } else {
        r
    }
}

/// The (soft budget, hard limit) for `side`, in milliseconds; (0, 0) without a
/// clock. The hard limit is the smallest of five times the budget, the budget plus
/// two seconds and the usable time, but at least the minimum move time.
pub open spec fn time_budget(l: Limits, side: Color) -> (int, int) {
    let time = if side == Color::White {
        l.wtime
    } else {
        l.btime
    };
    if time <= 0 {
        (0, 0)
    } else {
        let soft = soft_budget(l, side);
        let hard = max_int(
            min_int(min_int(soft * 5, soft + 2000), usable_time(l, side)),
            MIN_MOVE_TIME_MS as int,
        );
        (soft, hard)
    }
}

/// The budget arithmetic stays within the integer types: the raw budget fits an
/// `i64`, and five times the soft budget a `u64`.
pub open spec fn clock_fits(l: Limits, side: Color) -> bool {
    let time = if side == Color::White {
        l.wtime
    } else {
        l.btime
    };
    time > 0 ==> {
        &&& i64::MIN <= raw_budget(l, side) <= i64::MAX
        &&& soft_budget(l, side) * 5 <= u64::MAX
    }
}

/// Returns (soft budget, hard limit) in ms. The hard limit never exceeds the usable
/// time: the remaining clock minus the move overhead, but at least the minimum move
/// time. So it stays within the clock minus the overhead whenever that is more than
/// the minimum move time; with less on the clock the minimum move time is used.
pub fn time_for_move(limits: &Limits, side: Color) -> (r: (u64, u64))
    requires
        clock_fits(*limits, side),
    ensures
        (r.0 as int, r.1 as int) == time_budget(*limits, side),
        r.0 <= r.1,
        r.1 <= usable_time(*limits, side),
        usable_time(*limits, side) > MIN_MOVE_TIME_MS ==> r.1 + MOVE_OVERHEAD_MS <= (if side
            == Color::White {
            limits.wtime
        } else {
            limits.btime
        }),
{
    let (time, inc) = if side == Color::White {
        (limits.wtime, limits.winc)
    } else {
        (limits.btime, limits.binc)
    };
    if time <= 0 {
        return (0, 0);
    }
    let usable = if time - MOVE_OVERHEAD_MS > MIN_MOVE_TIME_MS {
        time - MOVE_OVERHEAD_MS
    } else {
        MIN_MOVE_TIME_MS
    };
    let mtg: i64 = if limits.moves_to_go > 0 {
        limits.moves_to_go as i64
    } else {
        DEFAULT_MOVES_TO_GO
    };
    let raw = usable / mtg + inc / 2;
    let soft_i = if raw < MIN_MOVE_TIME_MS {
        MIN_MOVE_TIME_MS
    } else if raw > usable {
        usable
    } else {
        raw
    };
    let soft = soft_i as u64;
    let a = soft * HARD_TIME_MULTIPLIER;
    let b = soft + HARD_TIME_ADDITIVE_CAP;
    let m1 = if a <= b {
        a
    } else {
        b
    };
    let m2 = if m1 <= usable as u64 {
        m1
    } else {
        usable as u64
    };
    let hard = if m2 >= MIN_MOVE_TIME_MS as u64 {
        m2
    } else {
        MIN_MOVE_TIME_MS as u64
    };
    (soft, hard)
}

// ---------------------------------------------------------------- draws

/// The position's hash occurs among the last `min(halfmove, len)` entries of the
/// history: nothing older can repeat, being separated by an irreversible move.
pub open spec fn repeats(history: Seq<u64>, halfmove: int, hash: u64) -> bool {
    let lookback = min_int(halfmove, history.len() as int);
    exists|k: int| 0 <= k < lookback && #[trigger] history[history.len() - 1 - k] == hash
}

/// Check if the current board position has appeared before (twofold repetition).
pub fn is_repetition(history_hashes: &Vec<u64>, board: &Board) -> (r: bool)
    ensures
        r == repeats(history_hashes@, board.halfmove as int, board.hash),
{
    let n = history_hashes.len();
    let lookback = if (board.halfmove as usize) < n {
        board.halfmove as usize
    } else {
        n
    };
    let mut k: usize = 0;
    while k < lookback
        invariant
            lookback <= n == history_hashes@.len(),
            lookback == min_int(board.halfmove as int, n as int),
            k <= lookback,
            forall|j: int| 0 <= j < k ==> #[trigger] history_hashes@[n - 1 - j] != board.hash,
        decreases lookback - k,
    {
        if history_hashes[n - 1 - k] == board.hash {
            return true;
        }
        k += 1;
    }
    false
}

/// Neither side can mate: two kings alone, or two kings and one minor piece.
pub open spec fn insufficient_material(b: Board) -> bool {
    let minors = (b.pieces[0][2] | b.pieces[1][2]) | (b.pieces[0][1] | b.pieces[1][1]);
    popcount(b.occ_all) == 2 || (popcount(b.occ_all) == 3 && popcount(minors) == 1)
}

/// Distinct squares of a bitboard count toward its population.
proof fn lemma_population_at_least(x: u64, sqs: Seq<int>)
    requires
        sqs.len() <= 4,
        forall|k: int| 0 <= k < sqs.len() ==> 0 <= #[trigger] sqs[k] < 64 && crate::bitboard::bit(x, sqs[k]),
        forall|k: int, l: int| 0 <= k < l < sqs.len() ==> sqs[k] != sqs[l],
    ensures
        popcount(x) >= sqs.len(),
{
    crate::bitboard::lemma_squares_from_members(x, 0);
    let all = crate::bitboard::squares_of(x);
    let idx = Seq::new(sqs.len(), |k: int| choose|j: int| 0 <= j < all.len() && all[j] == sqs[k]);
    assert forall|k: int| 0 <= k < sqs.len() implies 0 <= #[trigger] idx[k] < all.len() && all[idx[k]] == sqs[k] by {
        assert(all.contains(sqs[k]));
    }
    if sqs.len() >= 1 && all.len() < sqs.len() {
        if sqs.len() == 1 {
            assert(0 <= idx[0] < all.len());
        } else if sqs.len() == 2 {
            assert(idx[0] != idx[1]);
        } else if sqs.len() == 3 {
            assert(idx[0] != idx[1] && idx[0] != idx[2] && idx[1] != idx[2]);
        } else {
            assert(idx[0] != idx[1] && idx[0] != idx[2] && idx[1] != idx[2] && idx[0] != idx[3] && idx[1]
                != idx[3] && idx[2] != idx[3]);
        }
    }
}

/// Mating material stays: with both kings on the board, a pawn, rook or queen of
/// either side means the position is not a dead draw by material.
pub proof fn law_pawn_rook_or_queen_is_sufficient(b: Board, wk: int, bk: int, s: int)
    requires
        b.consistent(),
        0 <= wk < 64,
        0 <= bk < 64,
        0 <= s < 64,
        b.sq_piece[wk] == 5,
        b.sq_piece[bk] == 11,
        b.sq_piece[s] < 12,
        crate::board::type_idx(b.sq_piece[s]) == 0 || crate::board::type_idx(b.sq_piece[s]) == 3
            || crate::board::type_idx(b.sq_piece[s]) == 4,
    ensures
        !insufficient_material(b),
{
    broadcast use crate::bitboard::group_bit_lemmas;

    let occ = b.occ_all;
    assert(crate::bitboard::bit(occ, wk));
    assert(crate::bitboard::bit(occ, bk));
    assert(crate::bitboard::bit(occ, s));
    lemma_population_at_least(occ, seq![wk, bk, s]);
    let small = (b.pieces[0][2] | b.pieces[1][2]) | (b.pieces[0][1] | b.pieces[1][1]);
    if popcount(occ) == 3 && popcount(small) == 1 {
        crate::bitboard::lemma_squares_from_members(small, 0);
        let d = crate::bitboard::squares_of(small)[0];
        assert(crate::bitboard::bit(small, d));
        assert(crate::bitboard::bit(b.pieces[0][2], d) || crate::bitboard::bit(b.pieces[1][2], d)
            || crate::bitboard::bit(b.pieces[0][1], d) || crate::bitboard::bit(b.pieces[1][1], d));
        assert(b.sq_piece[d] == 2 || b.sq_piece[d] == 8 || b.sq_piece[d] == 1 || b.sq_piece[d] == 7);
        assert(crate::bitboard::bit(occ, d));
        lemma_population_at_least(occ, seq![wk, bk, s, d]);
    }
}

/// A bitboard whose squares all lie among a few given squares has at most that many.
proof fn lemma_population_at_most(x: u64, sqs: Seq<int>)
    requires
        1 <= sqs.len() <= 3,
        forall|j: int| 0 <= j < 64 && crate::bitboard::bit(x, j) ==> sqs.contains(j),
    ensures
        popcount(x) <= sqs.len(),
{
    crate::bitboard::lemma_squares_from_members(x, 0);
    let all = crate::bitboard::squares_of(x);
    if all.len() > sqs.len() {
        assert(all.len() >= 2);
        let n = sqs.len() as int;
        assert(forall|k: int| 0 <= k <= n ==> sqs.contains(#[trigger] all[k]));
        let i0 = choose|j: int| 0 <= j < sqs.len() && sqs[j] == all[0];
        let i1 = choose|j: int| 0 <= j < sqs.len() && sqs[j] == all[1];
        assert(all[0] < all[1]);
        if n >= 2 {
            let i2 = choose|j: int| 0 <= j < sqs.len() && sqs[j] == all[2];
            assert(all[1] < all[2]);
            if n >= 3 {
                let i3 = choose|j: int| 0 <= j < sqs.len() && sqs[j] == all[3];
                assert(all[2] < all[3]);
                assert(i0 != i1 && i0 != i2 && i0 != i3 && i1 != i2 && i1 != i3 && i2 != i3);
            } else {
                assert(i0 != i1 && i0 != i2 && i1 != i2);
            }
        } else {
            assert(i0 != i1);
        }
    }
}

/// Bare kings are a dead draw, and so are kings with one knight or bishop beside
/// them: with the two kings and at most one minor piece on the board, and nothing
/// else, the material is insufficient.
pub proof fn law_kings_and_one_minor_are_insufficient(b: Board, wk: int, bk: int, x: int)
    requires
        b.consistent(),
        0 <= wk < 64,
        0 <= bk < 64,
        0 <= x < 64,
        b.sq_piece[wk] == 5,
        b.sq_piece[bk] == 11,
        x == wk || b.sq_piece[x] == 1 || b.sq_piece[x] == 2 || b.sq_piece[x] == 7 || b.sq_piece[x] == 8,
        forall|s: int|
            0 <= s < 64 && s != wk && s != bk && s != x ==> #[trigger] b.sq_piece[s] == crate::types::PIECE_NONE,
    ensures
        insufficient_material(b),
{
    broadcast use crate::bitboard::group_bit_lemmas;

    let occ = b.occ_all;
    assert(crate::bitboard::bit(occ, wk));
    assert(crate::bitboard::bit(occ, bk));
    if x == wk {
        assert forall|j: int| 0 <= j < 64 && crate::bitboard::bit(occ, j) implies seq![wk, bk].contains(j) by {
            if j != wk && j != bk {
                assert(b.sq_piece[j] == crate::types::PIECE_NONE);
            }
            if j == wk {
                assert(seq![wk, bk][0] == j);
            } else {
                assert(seq![wk, bk][1] == j);
            }
        }
        lemma_population_at_most(occ, seq![wk, bk]);
        lemma_population_at_least(occ, seq![wk, bk]);
    } else {
        assert(crate::bitboard::bit(occ, x));
        assert forall|j: int| 0 <= j < 64 && crate::bitboard::bit(occ, j) implies seq![wk, bk, x].contains(j) by {
            if j != wk && j != bk && j != x {
                assert(b.sq_piece[j] == crate::types::PIECE_NONE);
            }
            if j == wk {
                assert(seq![wk, bk, x][0] == j);
            } else if j == bk {
                assert(seq![wk, bk, x][1] == j);
            } else {
                assert(seq![wk, bk, x][2] == j);
            }
        }
        lemma_population_at_most(occ, seq![wk, bk, x]);
        lemma_population_at_least(occ, seq![wk, bk, x]);
        let small = (b.pieces[0][2] | b.pieces[1][2]) | (b.pieces[0][1] | b.pieces[1][1]);
        assert(crate::bitboard::bit(b.pieces[0][2], x) || crate::bitboard::bit(b.pieces[1][2], x)
            || crate::bitboard::bit(b.pieces[0][1], x) || crate::bitboard::bit(b.pieces[1][1], x));
        assert(crate::bitboard::bit(small, x));
        assert forall|j: int| 0 <= j < 64 && crate::bitboard::bit(small, j) implies seq![x].contains(j) by {
            assert(crate::bitboard::bit(b.pieces[0][2], j) || crate::bitboard::bit(b.pieces[1][2], j)
                || crate::bitboard::bit(b.pieces[0][1], j) || crate::bitboard::bit(b.pieces[1][1], j));
            if j != x {
                assert(b.sq_piece[j] != 5 && b.sq_piece[j] != 11);
                assert(b.sq_piece[j] == crate::types::PIECE_NONE);
            }
            assert(seq![x][0] == j);
        }
        lemma_population_at_most(small, seq![x]);
        lemma_population_at_least(small, seq![x]);
    }
}

pub fn is_insufficient_material(board: &Board) -> (r: bool)
    ensures
        r == insufficient_material(*board),
{
    if bb_popcount(board.occ_all) == 2 {
        return true;
    }
    if bb_popcount(board.occ_all) == 3 {
        let bishops = board.pieces[0][2] | board.pieces[1][2];
        let knights = board.pieces[0][1] | board.pieces[1][1];
        if bb_popcount(bishops | knights) == 1 {
            return true;
        }
    }
    false
}

/// The static evaluation improved on the one two plies earlier.
pub open spec fn improving_at(stack: Seq<PlyInfo>, static_eval: int, ply: int) -> bool {
    ply >= 2 && ply - 2 < MAX_PLY && match stack[ply - 2].static_eval {
        Some(prev) => static_eval > prev,
        None => false,
    }
}

pub fn is_improving(stack: &[PlyInfo; 128], static_eval: Score, ply: usize) -> (r: bool)
    ensures
        r == improving_at(stack@, static_eval as int, ply as int),
{
    if ply < 2 || ply - 2 >= MAX_PLY {
        return false;
    }
    match stack[ply - 2].static_eval {
        Some(prev_eval) => static_eval > prev_eval,
        None => false,
    }
}

// ---------------------------------------------------------------- move ordering tables

/// History values are halved once one of them passes this size.
pub const HISTORY_OVERFLOW_THRESHOLD: i32 = 500_000;
/// Capture history counts in move ordering divided by this.
pub const CAP_HISTORY_DIVISOR: i32 = 16;

pub open spec fn killer_index(ply: int, slot: int) -> int {
    ply * 2 + slot
}

pub open spec fn history_index(c: int, pt: int, to: int) -> int {
    (c * 6 + pt) * 64 + to
}

pub open spec fn counter_index(from: int, to: int) -> int {
    from * 64 + to
}

pub open spec fn cap_index(c: int, pt: int, to: int, cpt: int) -> int {
    ((c * 6 + pt) * 64 + to) * 6 + cpt
}

/// The move-ordering memory of a search: two killer moves per ply, quiet history
/// by color, piece type and target square, the counter move to each move (by from
/// and to square), and capture history by color, mover, target and captured type.
pub struct OrderingTables {
    pub killers: Vec<Move>,
    pub history: Vec<i32>,
    pub counter: Vec<Move>,
    pub cap_history: Vec<i32>,
}

/// The tables have their sizes; quiet history stays within the threshold either
/// way and capture history between zero and the threshold.
pub open spec fn tables_ok(killers: Seq<Move>, history: Seq<i32>, counter: Seq<Move>, cap: Seq<i32>) -> bool {
    &&& killers.len() == 256
    &&& history.len() == 768
    &&& counter.len() == 4096
    &&& cap.len() == 4608
    &&& forall|i: int| 0 <= i < 768 ==> -500_000 <= #[trigger] history[i] <= 500_000
    &&& forall|i: int| 0 <= i < 4608 ==> 0 <= #[trigger] cap[i] <= 500_000
}

/// The entries of `h` from `lo` to `hi` halved (rounding toward zero).
pub open spec fn halved(h: Seq<i32>, lo: int, hi: int) -> Seq<i32> {
    Seq::new(
        h.len(),
        |i: int|
            if lo <= i < hi {
                div_trunc(h[i] as int, 2) as i32
            } else {
                h[i]
            },
    )
}

/// The killers after `m` caused a cutoff at `ply`: it becomes the first killer and
/// the old first the second, unless it already was the first.
pub open spec fn killers_after(k: Seq<Move>, ply: int, m: Move) -> Seq<Move> {
    if ply >= MAX_PLY || k[killer_index(ply, 0)] == m {
        k
    } else {
        k.update(killer_index(ply, 1), k[killer_index(ply, 0)]).update(killer_index(ply, 0), m)
    }
}

/// Quiet history after adding `delta` for a move of `piece` by color `c`: the
/// colour's entries are halved when the new value passes the threshold.
pub open spec fn history_after(h: Seq<i32>, c: int, piece: u8, m: Move, delta: int) -> Seq<i32> {
    if piece == PIECE_NONE {
        h
    } else {
        let i = history_index(c, type_of_piece(piece).idx(), to_of(m) as int);
        let v = h[i] + delta;
        let h1 = h.update(i, v as i32);
        if v > 500_000 || v < -500_000 {
            halved(h1, c * 384, c * 384 + 384)
        } else {
            h1
        }
    }
}

/// Capture history after a capture by `m` on `b` caused a cutoff at `depth`: the
/// entry gains the depth squared, and the colour's entries are halved when it
/// passes the threshold.
pub open spec fn cap_history_after(cap: Seq<i32>, b: Board, c: int, m: Move, depth: int) -> Seq<i32> {
    let mover = b.sq_piece[from_of(m) as int];
    if mover == PIECE_NONE {
        cap
    } else {
        let captured = b.sq_piece[to_of(m) as int];
        let cpt = if captured != PIECE_NONE {
            type_of_piece(captured).idx()
        } else {
            0
        };
        let i = cap_index(c, type_of_piece(mover).idx(), to_of(m) as int, cpt);
        let v = cap[i] + depth * depth;
        let c1 = cap.update(i, v as i32);
        if v > 500_000 {
            halved(c1, c * 2304, c * 2304 + 2304)
        } else {
            c1
        }
    }
}

pub fn history_delta(depth: i32) -> (d: i32)
    requires
        -700 <= depth <= 700,
    ensures
        d == depth * depth,
        0 <= d <= 490_000,
{
    assert(0 <= depth * depth <= 490_000) by (nonlinear_arith)
        requires
            -700 <= depth <= 700,
    ;
    depth * depth
}

fn halve_range(v: &mut Vec<i32>, lo: usize, hi: usize)
    requires
        lo <= hi <= old(v)@.len(),
    ensures
        final(v)@ == halved(old(v)@, lo as int, hi as int),
{
    let ghost v0 = v@;
    let mut i = lo;
    while i < hi
        invariant
            lo <= i <= hi <= v@.len(),
            v0.len() == v@.len(),
            forall|j: int| 0 <= j < v@.len() ==> #[trigger] v@[j] == if lo <= j < i {
                div_trunc(v0[j] as int, 2) as i32
            } else {
                v0[j]
            },
        decreases hi - i,
    {
        let x = v[i];
        v.set(i, x / 2);
        i += 1;
    }
    proof {
        assert(v@ =~= halved(v0, lo as int, hi as int));
    }
}

impl OrderingTables {
    pub open spec fn wf(&self) -> bool {
        tables_ok(self.killers@, self.history@, self.counter@, self.cap_history@)
    }

    /// Empty tables: no killers or counter moves, zero history.
    pub fn new() -> (t: Self)
        ensures
            t.wf(),
            forall|i: int| 0 <= i < 256 ==> #[trigger] t.killers@[i] == MOVE_NONE,
            forall|i: int| 0 <= i < 768 ==> #[trigger] t.history@[i] == 0,
            forall|i: int| 0 <= i < 4096 ==> #[trigger] t.counter@[i] == MOVE_NONE,
            forall|i: int| 0 <= i < 4608 ==> #[trigger] t.cap_history@[i] == 0,
    {
        let killers = vec![MOVE_NONE; 256];
        let history = vec![0i32; 768];
        let counter = vec![MOVE_NONE; 4096];
        let cap_history = vec![0i32; 4608];
        OrderingTables { killers, history, counter, cap_history }
    }

    pub fn update_killers(&mut self, ply: usize, m: Move)
        requires
            old(self).wf(),
        ensures
            final(self).wf(),
            final(self).killers@ == killers_after(old(self).killers@, ply as int, m),
            final(self).history@ == old(self).history@,
            final(self).counter@ == old(self).counter@,
            final(self).cap_history@ == old(self).cap_history@,
    {
        if ply >= MAX_PLY {
            return;
        }
        if self.killers[ply * 2] != m {
            let first = self.killers[ply * 2];
            self.killers.set(ply * 2 + 1, first);
            self.killers.set(ply * 2, m);
        }
    }

    pub fn add_history_score(&mut self, color: Color, moving_piece: u8, m: Move, delta: i32)
        requires
            old(self).wf(),
            moving_piece <= PIECE_NONE,
            -500_000 <= delta <= 500_000,
        ensures
            final(self).wf(),
            final(self).history@ == history_after(
                old(self).history@,
                color.idx(),
                moving_piece,
                m,
                delta as int,
            ),
            final(self).killers@ == old(self).killers@,
            final(self).counter@ == old(self).counter@,
            final(self).cap_history@ == old(self).cap_history@,
    {
        if moving_piece == PIECE_NONE {
            return;
        }
        let pt = piece_type(moving_piece).index();
        let to = move_to(m) as usize;
        let ci = color.index();
        let i = (ci * 6 + pt) * 64 + to;
        let v = self.history[i] + delta;
        self.history.set(i, v);
        if v > HISTORY_OVERFLOW_THRESHOLD || v < -HISTORY_OVERFLOW_THRESHOLD {
            halve_range(&mut self.history, ci * 384, ci * 384 + 384);
        }
        proof {
            assert forall|j: int| 0 <= j < 768 implies -500_000 <= #[trigger] self.history@[j]
                <= 500_000 by {}
        }
    }

    pub fn update_cap_history(&mut self, color: Color, m: Move, board: &Board, depth: i32)
        requires
            old(self).wf(),
            board.consistent(),
            -700 <= depth <= 700,
        ensures
            final(self).wf(),
            final(self).cap_history@ == cap_history_after(
                old(self).cap_history@,
                *board,
                color.idx(),
                m,
                depth as int,
            ),
            final(self).killers@ == old(self).killers@,
            final(self).history@ == old(self).history@,
            final(self).counter@ == old(self).counter@,
    {
        let ci = color.index();
        let mover = board.sq_piece[move_from(m) as usize];
        if mover == PIECE_NONE {
            return;
        }
        let mover_pt = piece_type(mover).index();
        let to = move_to(m) as usize;
        let cap = board.sq_piece[move_to(m) as usize];
        let cap_pt = if cap != PIECE_NONE {
            piece_type(cap).index()
        } else {
            0
        };
        let bonus = history_delta(depth);
        let i = ((ci * 6 + mover_pt) * 64 + to) * 6 + cap_pt;
        let v = self.cap_history[i] + bonus;
        self.cap_history.set(i, v);
        if v > HISTORY_OVERFLOW_THRESHOLD {
            halve_range(&mut self.cap_history, ci * 2304, ci * 2304 + 2304);
        }
        proof {
            assert forall|j: int| 0 <= j < 4608 implies 0 <= #[trigger] self.cap_history@[j]
                <= 500_000 by {}
        }
    }
}

// ---------------------------------------------------------------- cutoffs and move scores

/// The counter moves after a quiet cutoff by `m` at `ply`: `m` becomes the answer to
/// the move searched one ply up, when there is one.
pub open spec fn counter_after(cm: Seq<Move>, stack: Seq<PlyInfo>, ply: int, m: Move) -> Seq<Move> {
    if ply == 0 || ply >= MAX_PLY {
        cm
    } else {
        let prev = stack[ply - 1].current_move;
        if prev != MOVE_NONE {
            cm.update(counter_index(from_of(prev) as int, to_of(prev) as int), m)
        } else {
            cm
        }
    }
}

impl OrderingTables {
    /// Handle beta cutoff: update killers, history, counter moves.
    pub fn handle_beta_cutoff(
        &mut self,
        board: &Board,
        m: Move,
        ply: usize,
        depth: i32,
        is_capture: bool,
        stack: &[PlyInfo; 128],
    )
        requires
            old(self).wf(),
            board.consistent(),
            -700 <= depth <= 700,
        ensures
            final(self).wf(),
            is_capture ==> {
                &&& final(self).cap_history@ == cap_history_after(
                    old(self).cap_history@,
                    *board,
                    board.side.idx(),
                    m,
                    depth as int,
                )
                &&& final(self).killers@ == old(self).killers@
                &&& final(self).history@ == old(self).history@
                &&& final(self).counter@ == old(self).counter@
            },
            !is_capture ==> {
                &&& final(self).killers@ == killers_after(old(self).killers@, ply as int, m)
                &&& final(self).history@ == history_after(
                    old(self).history@,
                    board.side.idx(),
                    board.sq_piece[from_of(m) as int],
                    m,
                    depth * depth,
                )
                &&& final(self).counter@ == counter_after(old(self).counter@, stack@, ply as int, m)
                &&& final(self).cap_history@ == old(self).cap_history@
            },
    {
        if is_capture {
            self.update_cap_history(board.side, m, board, depth);
            return;
        }
        self.update_killers(ply, m);
        let bonus = history_delta(depth);
        let moving_piece = board.sq_piece[move_from(m) as usize];
        self.add_history_score(board.side, moving_piece, m, bonus);
        if ply == 0 || ply >= 128 {
            return;
        }
        let prev_move = stack[ply - 1].current_move;
        if prev_move != MOVE_NONE {
            let i = move_from(prev_move) as usize * 64 + move_to(prev_move) as usize;
            self.counter.set(i, m);
        }
    }
}

/// Whether `m` takes something on `b` (en passant included).
pub open spec fn is_capture_on(b: Board, m: Move) -> bool {
    b.sq_piece[to_of(m) as int] != PIECE_NONE || flags_of(m) == MF_EN_PASSANT
}

/// The MVV-LVA part of a capture's score: ten times the victim (a pawn for en
/// passant) minus the attacker, plus its capture history over the divisor.
pub open spec fn capture_base(cap: Seq<i32>, b: Board, m: Move, us: int) -> int {
    let captured = b.sq_piece[to_of(m) as int];
    let mover = b.sq_piece[from_of(m) as int];
    let cap_val = if captured != PIECE_NONE {
        material_of(type_of_piece(captured))
    } else {
        100
    };
    let cpt = if captured != PIECE_NONE {
        type_of_piece(captured).idx()
    } else {
        0
    };
    let ch = div_trunc(cap[cap_index(us, type_of_piece(mover).idx(), to_of(m) as int, cpt)] as int, 16);
    cap_val * 10 - material_of(type_of_piece(mover)) + ch
}

/// The ordering score of a move: the hash move first, then promotions by piece,
/// captures by MVV-LVA and capture history, then quiet moves: killers, the counter
/// move, and quiet history.
pub open spec fn order_score(
    killers: Seq<Move>,
    history: Seq<i32>,
    cap: Seq<i32>,
    b: Board,
    m: Move,
    tt_move: Move,
    ply: int,
    counter: Move,
    us: int,
) -> int {
    if m == tt_move {
        2_000_000
    } else if flags_of(m) == MF_PROMOTION {
        1_800_000 + material_of(promo_of(m))
    } else if is_capture_on(b, m) {
        1_000_000 + capture_base(cap, b, m, us)
    } else {
        let bonus: int = if ply < 128 && m == killers[killer_index(ply, 0)] {
            900_000
        } else if ply < 128 && m == killers[killer_index(ply, 1)] {
            800_000
        } else if m == counter {
            750_000
        } else {
            0
        };
        let mover = b.sq_piece[from_of(m) as int];
        bonus + if mover != PIECE_NONE {
            history[history_index(us, type_of_piece(mover).idx(), to_of(m) as int)] as int
        } else {
            0
        }
    }
}

/// The counter move recorded for the move searched one ply up.
pub open spec fn counter_for(cm: Seq<Move>, stack: Seq<PlyInfo>, ply: int) -> Move {
    let prev = if ply > 0 && ply < 128 {
        stack[ply - 1].current_move
    } else {
        MOVE_NONE
    };
    if prev != MOVE_NONE {
        cm[counter_index(from_of(prev) as int, to_of(prev) as int)]
    } else {
        MOVE_NONE
    }
}

/// The moves of the list all start from a square with a piece.
pub open spec fn movers_present(b: Board, list: MoveList) -> bool {
    forall|i: int| 0 <= i < list.count ==> #[trigger] b.sq_piece[from_of(list.moves[i]) as int] < 12
}

impl OrderingTables {
    /// Score a single move for move ordering.
    pub fn score_single_move(&self, board: &Board, m: Move, tt_move: Move, ply: usize, counter: Move, us: usize) -> (s: i32)
        requires
            self.wf(),
            board.consistent(),
            us < 2,
            board.sq_piece[from_of(m) as int] < 12,
        ensures
            s == order_score(
                self.killers@,
                self.history@,
                self.cap_history@,
                *board,
                m,
                tt_move,
                ply as int,
                counter,
                us as int,
            ),
    {
        if m == tt_move {
            return 2_000_000;
        }
        if move_flags(m) == MF_PROMOTION {
            return 1_800_000 + move_promo_pt(m).material_value();
        }
        let cap = board.sq_piece[move_to(m) as usize];
        let is_capture = cap != PIECE_NONE || move_flags(m) == MF_EN_PASSANT;
        if is_capture {
            return 1_000_000 + self.capture_part(board, m, us);
        }
        // Quiet move scoring
        let mut s: i32 = 0;
        if ply < 128 && m == self.killers[ply * 2] {
            s = s + 900_000;
        } else if ply < 128 && m == self.killers[ply * 2 + 1] {
            s = s + 800_000;
        } else if m == counter {
            s = s + 750_000;
        }
        let mover = board.sq_piece[move_from(m) as usize];
        if mover != PIECE_NONE {
            let i = (us * 6 + piece_type(mover).index()) * 64 + move_to(m) as usize;
            s = s + self.history[i];
        }
        s
    }

    fn capture_part(&self, board: &Board, m: Move, us: usize) -> (v: i32)
        requires
            self.wf(),
            board.consistent(),
            us < 2,
            board.sq_piece[from_of(m) as int] < 12,
        ensures
            v == capture_base(self.cap_history@, *board, m, us as int),
            -900 <= v <= 41_000,
    {
        let cap = board.sq_piece[move_to(m) as usize];
        let cap_val = if cap != PIECE_NONE {
            piece_type(cap).material_value()
        } else {
            100
        };
        let mover = board.sq_piece[move_from(m) as usize];
        let mov_val = piece_type(mover).material_value();
        let mover_pt = piece_type(mover).index();
        let cap_pt = if cap != PIECE_NONE {
            piece_type(cap).index()
        } else {
            0
        };
        let to = move_to(m) as usize;
        let ch = self.cap_history[((us * 6 + mover_pt) * 64 + to) * 6 + cap_pt] / CAP_HISTORY_DIVISOR;
        cap_val * 10 - mov_val + ch
    }

    /// Gives every move of the list its ordering score.
    pub fn score_moves(&self, board: &Board, list: &mut MoveList, tt_move: Move, ply: usize, stack: &[PlyInfo; 128])
        requires
            self.wf(),
            board.consistent(),
            old(list).wf(),
            movers_present(*board, *old(list)),
        ensures
            final(list).wf(),
            final(list).count == old(list).count,
            final(list).moves == old(list).moves,
            forall|i: int| 0 <= i < final(list).count ==> #[trigger] final(list).scores[i] == order_score(
                self.killers@,
                self.history@,
                self.cap_history@,
                *board,
                final(list).moves[i],
                tt_move,
                ply as int,
                counter_for(self.counter@, stack@, ply as int),
                board.side.idx(),
            ),
    {
        let us = board.side.index();
        let prev_move = if ply > 0 && ply < 128 {
            stack[ply - 1].current_move
        } else {
            MOVE_NONE
        };
        let counter = if prev_move != MOVE_NONE {
            self.counter[move_from(prev_move) as usize * 64 + move_to(prev_move) as usize]
        } else {
            MOVE_NONE
        };
        let ghost moves0 = list.moves;
        let ghost count0 = list.count;
        let mut i: usize = 0;
        while i < list.count
            invariant
                list.count == count0,
                self.wf(),
                board.consistent(),
                list.wf(),
                list.moves == moves0,
                us == board.side.idx(),
                counter == counter_for(self.counter@, stack@, ply as int),
                movers_present(*board, *list),
                i <= list.count,
                forall|j: int| 0 <= j < i ==> #[trigger] list.scores[j] == order_score(
                    self.killers@,
                    self.history@,
                    self.cap_history@,
                    *board,
                    list.moves[j],
                    tt_move,
                    ply as int,
                    counter,
                    us as int,
                ),
            decreases list.count - i,
        {
            let m = list.moves[i];
            let sc = self.score_single_move(board, m, tt_move, ply, counter, us);
            list.scores[i] = sc;
            i += 1;
        }
    }
}

/// The ordering score of a capture in the quiescence search: sixteen times its
/// exchange value when the options order captures by exchange, plus MVV-LVA and
/// capture history.
pub open spec fn capture_order_score(cap: Seq<i32>, b: Board, m: Move, us: int, use_see: bool) -> int {
    (if use_see {
        see_value(b, m)
    } else {
        0
    }) * 16 + capture_base(cap, b, m, us)
}

impl OrderingTables {
    /// Gives every capture of the list its ordering score.
    pub fn score_captures(&self, board: &Board, atk: &AttackTables, options: &SearchOptions, list: &mut MoveList)
        requires
            self.wf(),
            atk.wf(),
            board.consistent(),
            old(list).wf(),
            movers_present(*board, *old(list)),
            forall|i: int| 0 <= i < old(list).count ==> see_move_ok(*board, #[trigger] old(list).moves[i]),
        ensures
            final(list).wf(),
            final(list).count == old(list).count,
            final(list).moves == old(list).moves,
            forall|i: int| 0 <= i < final(list).count ==> #[trigger] final(list).scores[i]
                == capture_order_score(
                self.cap_history@,
                *board,
                final(list).moves[i],
                board.side.idx(),
                options.see && options.see_capture_ordering,
            ),
    {
        let us = board.side.index();
        let use_see = options.see && options.see_capture_ordering;
        let ghost moves0 = list.moves;
        let ghost count0 = list.count;
        let mut i: usize = 0;
        while i < list.count
            invariant
                list.count == count0,
                self.wf(),
                atk.wf(),
                board.consistent(),
                list.wf(),
                list.moves == moves0,
                us == board.side.idx(),
                use_see == (options.see && options.see_capture_ordering),
                movers_present(*board, *list),
                forall|j: int| 0 <= j < list.count ==> see_move_ok(*board, #[trigger] list.moves[j]),
                i <= list.count,
                forall|j: int| 0 <= j < i ==> #[trigger] list.scores[j] == capture_order_score(
                    self.cap_history@,
                    *board,
                    list.moves[j],
                    us as int,
                    use_see,
                ),
            decreases list.count - i,
        {
            let m = list.moves[i];
            let base = self.capture_part(board, m, us);
            let see = if use_see {
                static_exchange_eval(board, atk, m)
            } else {
                0
            };
            list.scores[i] = see * 16 + base;
            i += 1;
        }
    }
}

// ---------------------------------------------------------------- criticality sampling

/// A reduced move is probed at full depth when it was reduced, failed low, no
/// probe is running, the log is open, and its node falls in the sample.
pub open spec fn probe_wanted(
    in_probe: bool,
    logger_open: bool,
    node_hash: u64,
    m: Move,
    depth: i32,
    ply: usize,
    reduction: i32,
    reduced_score: Score,
    alpha: Score,
    search_id: u64,
    permille: u32,
) -> bool {
    &&& reduction > 0
    &&& !in_probe
    &&& reduced_score <= alpha
    &&& logger_open
    &&& permille != 0
    &&& (permille >= 1000 || sample_bucket(node_hash, m, depth, ply, search_id) < permille)
}

pub fn should_run_criticality_probe(
    in_probe: bool,
    logger_open: bool,
    node_hash: u64,
    m: Move,
    depth: i32,
    ply: usize,
    reduction: i32,
    reduced_score: Score,
    alpha: Score,
    search_id: u64,
    permille: u32,
) -> (r: bool)
    ensures
        r == probe_wanted(
            in_probe,
            logger_open,
            node_hash,
            m,
            depth,
            ply,
            reduction,
            reduced_score,
            alpha,
            search_id,
            permille,
        ),
{
    reduction > 0 && !in_probe && reduced_score <= alpha && logger_open && should_probe(
        node_hash,
        m,
        depth,
        ply,
        search_id,
        permille,
    )
}

/// What the search knows of a reduced move when it logs it.
#[derive(Clone, Copy, Debug)]
pub struct CriticalityRecordInput {
    pub enabled: bool,
    pub node_hash: u64,
    pub side_to_move: Color,
    pub m: Move,
    pub ply: usize,
    pub from: u8,
    pub to: u8,
    pub moving_piece: u8,
    pub depth: i32,
    pub move_index: usize,
    pub base_reduction: i32,
    pub final_reduction: i32,
    pub new_depth: i32,
    pub history_score: i32,
    pub static_eval: Score,
    pub prev_static_eval: Option<Score>,
    pub alpha: Score,
    pub beta: Score,
    pub is_pv: bool,
    pub is_cut_node: bool,
    pub improving: bool,
    pub is_killer: bool,
    pub is_counter: bool,
    pub tt_move_agreement: bool,
}

/// `r` records the input as an unlabelled reduction decision of process `pid` in
/// the given game, search and iteration, with no scores yet.
pub open spec fn record_of(
    r: CriticalityRecord,
    input: CriticalityRecordInput,
    pid: u32,
    game_id: u64,
    search_id: u64,
    root_depth: i32,
) -> bool {
    &&& r.decision_kind == CriticalityDecisionKind::Lmr
    &&& r.pid == pid
    &&& r.game_id == game_id
    &&& r.search_id == search_id
    &&& r.root_depth == root_depth
    &&& r.ply == input.ply
    &&& r.node_hash == input.node_hash
    &&& r.side_to_move == input.side_to_move
    &&& r.m == input.m
    &&& r.from == input.from
    &&& r.to == input.to
    &&& r.piece == input.moving_piece
    &&& r.depth == input.depth
    &&& r.move_index == input.move_index
    &&& r.base_reduction == input.base_reduction
    &&& r.final_reduction == input.final_reduction
    &&& r.new_depth == input.new_depth
    &&& r.history_score == input.history_score
    &&& r.static_eval == input.static_eval
    &&& r.prev_static_eval == input.prev_static_eval
    &&& r.alpha == input.alpha
    &&& r.beta == input.beta
    &&& r.futility_margin is None
    &&& r.static_alpha_margin is None
    &&& r.is_pv == input.is_pv
    &&& r.is_cut_node == input.is_cut_node
    &&& r.improving == input.improving
    &&& r.is_killer == input.is_killer
    &&& r.is_counter == input.is_counter
    &&& r.tt_move_agreement == input.tt_move_agreement
    &&& r.label_source == CriticalityLabelSource::Unlabeled
    &&& r.reduced_score is None
    &&& r.full_score is None
    &&& r.sigma is None
}

/// The record of a reduced move, when logging is enabled for it and the log is open.
pub fn build_criticality_record(
    input: CriticalityRecordInput,
    logger_open: bool,
    pid: u32,
    game_id: u64,
    search_id: u64,
    root_depth: i32,
) -> (r: Option<CriticalityRecord>)
    ensures
        r is Some <==> (input.enabled && logger_open),
        r matches Some(rec) ==> record_of(rec, input, pid, game_id, search_id, root_depth),
{
    if !input.enabled || !logger_open {
        return None;
    }
    Some(
        CriticalityRecord {
            decision_kind: CriticalityDecisionKind::Lmr,
            pid,
            game_id,
            search_id,
            root_depth,
            ply: input.ply,
            node_hash: input.node_hash,
            side_to_move: input.side_to_move,
            m: input.m,
            from: input.from,
            to: input.to,
            piece: input.moving_piece,
            depth: input.depth,
            move_index: input.move_index,
            base_reduction: input.base_reduction,
            final_reduction: input.final_reduction,
            new_depth: input.new_depth,
            history_score: input.history_score,
            static_eval: input.static_eval,
            prev_static_eval: input.prev_static_eval,
            alpha: input.alpha,
            beta: input.beta,
            futility_margin: None,
            static_alpha_margin: None,
            is_pv: input.is_pv,
            is_cut_node: input.is_cut_node,
            improving: input.improving,
            is_killer: input.is_killer,
            is_counter: input.is_counter,
            tt_move_agreement: input.tt_move_agreement,
            label_source: CriticalityLabelSource::Unlabeled,
            reduced_score: None,
            full_score: None,
            sigma: None,
        },
    )
}

// ---------------------------------------------------------------- scores

/// The score of mate on the board; mate in `n` plies scores `SCORE_MATE - n`.
pub const SCORE_MATE: Score = 30_000;
/// The score of a draw before contempt.
pub const SCORE_DRAW: Score = 0;

/// A mate score: within `MAX_PLY` plies of mate for either side.
pub open spec fn mate_score(s: int) -> bool {
    s >= SCORE_MATE - MAX_PLY || s <= -(SCORE_MATE - MAX_PLY)
}

pub fn is_mate_score(s: Score) -> (r: bool)
    ensures
        r == mate_score(s as int),
{
    s >= SCORE_MATE - MAX_PLY as i32 || s <= -(SCORE_MATE - MAX_PLY as i32)
}

/// Moves to mate of a mate score: positive when the side to move mates,
/// negative when it is mated.
pub open spec fn moves_to_mate(s: int) -> int {
    if s > 0 {
        div_trunc(SCORE_MATE - s + 1, 2)
    } else {
        -div_trunc(SCORE_MATE + s, 2)
    }
}

pub fn mate_in(s: Score) -> (r: i32)
    requires
        -SCORE_INF <= s <= SCORE_INF,
    ensures
        r == moves_to_mate(s as int),
{
    if s > 0 {
        (SCORE_MATE - s + 1) / 2
    } else {
        -((SCORE_MATE + s) / 2)
    }
}

/// A score as the table stores it: mate scores counted from the node instead of
/// from the root.
pub open spec fn to_table(s: int, ply: int) -> int {
    if s >= SCORE_MATE - MAX_PLY {
        s + ply
    } else if s <= -(SCORE_MATE - MAX_PLY) {
        s - ply
    } else {
        s
    }
}

/// A stored score read back at `ply`: mate scores counted from the root again.
pub open spec fn from_table(s: int, ply: int) -> int {
    if s >= SCORE_MATE - MAX_PLY {
        s - ply
    } else if s <= -(SCORE_MATE - MAX_PLY) {
        s + ply
    } else {
        s
    }
}

pub fn score_to_tt(s: Score, ply: usize) -> (r: Score)
    requires
        -crate::qsearch::QS_BOUND <= s <= crate::qsearch::QS_BOUND,
        ply < MAX_PLY,
    ensures
        r == to_table(s as int, ply as int),
{
    if s >= SCORE_MATE - MAX_PLY as i32 {
        s + ply as i32
    } else if s <= -(SCORE_MATE - MAX_PLY as i32) {
        s - ply as i32
    } else {
        s
    }
}

pub fn score_from_tt(s: Score, ply: usize) -> (r: Score)
    requires
        -crate::qsearch::QS_BOUND - 2 * MAX_PLY <= s <= crate::qsearch::QS_BOUND + 2 * MAX_PLY,
        ply < MAX_PLY,
    ensures
        r == from_table(s as int, ply as int),
{
    if s >= SCORE_MATE - MAX_PLY as i32 {
        s - ply as i32
    } else if s <= -(SCORE_MATE - MAX_PLY as i32) {
        s + ply as i32
    } else {
        s
    }
}

/// A score stored at `ply` reads back unchanged at the same ply, for every score
/// no farther from mate than the ply it is stored at (as scores at that ply are).
pub proof fn lemma_table_score_roundtrip(s: int, ply: int)
    requires
        0 <= ply < MAX_PLY,
        s >= SCORE_MATE - MAX_PLY ==> s <= SCORE_MATE - ply,
        s <= -(SCORE_MATE - MAX_PLY) ==> s >= -(SCORE_MATE - ply),
    ensures
        from_table(to_table(s, ply), ply) == s,
{
}

// ---------------------------------------------------------------- table cutoffs

/// What a stored score is: exact, a lower bound (it failed high) or an upper bound
/// (it failed low).
#[derive(Clone, Copy, Debug, PartialEq, Eq, Structural)]
pub enum Bound {
    Exact,
    Lower,
    Upper,
}

/// A table entry cuts a non-PV node off when it was searched at least as deep and
/// its score (read back at `ply`) is exact, or a lower bound at or above beta, or
/// an upper bound at or below alpha.
pub open spec fn table_cutoff(
    bound: Bound,
    entry_depth: int,
    entry_score: int,
    depth: int,
    alpha: int,
    beta: int,
    is_pv: bool,
    ply: int,
) -> Option<int> {
    if is_pv || entry_depth < depth {
        None
    } else {
        let s = from_table(entry_score, ply);
        let cut = match bound {
            Bound::Exact => true,
            Bound::Lower => s >= beta,
            Bound::Upper => s <= alpha,
        };
        if cut {
            Some(s)
        } else {
            None
        }
    }
}

pub fn tt_cutoff(
    bound: Bound,
    entry_depth: i8,
    entry_score: Score,
    depth: i32,
    alpha: Score,
    beta: Score,
    is_pv: bool,
    ply: usize,
) -> (r: Option<Score>)
    requires
        -crate::qsearch::QS_BOUND - 2 * MAX_PLY <= entry_score <= crate::qsearch::QS_BOUND + 2 * MAX_PLY,
        ply < MAX_PLY,
    ensures
        r matches Some(s) ==> table_cutoff(
            bound,
            entry_depth as int,
            entry_score as int,
            depth as int,
            alpha as int,
            beta as int,
            is_pv,
            ply as int,
        ) == Some(s as int),
        r is None ==> table_cutoff(
            bound,
            entry_depth as int,
            entry_score as int,
            depth as int,
            alpha as int,
            beta as int,
            is_pv,
            ply as int,
        ) is None,
{
    if is_pv || (entry_depth as i32) < depth {
        return None;
    }
    let s = score_from_tt(entry_score, ply);
    let cutoff = match bound {
        Bound::Exact => true,
        Bound::Lower => s >= beta,
        Bound::Upper => s <= alpha,
    };
    if cutoff {
        Some(s)
    } else {
        None
    }
}

// ---------------------------------------------------------------- node decisions

/// The aspiration window's first half-width.
pub const ASPIRATION_DELTA: i32 = 25;
/// Reverse futility margin per ply of depth.
pub const RFP_MARGIN_PER_DEPTH: i32 = 100;
/// The deepest node reverse futility pruning applies to.
pub const RFP_MAX_DEPTH: i32 = 5;
/// The shallowest node a null move is tried at.
pub const NULL_MOVE_MIN_DEPTH: i32 = 3;
/// The null move reduction: a base plus one per this many plies of depth.
pub const NULL_MOVE_BASE_R: i32 = 3;
pub const NULL_MOVE_DEPTH_DIVISOR: i32 = 4;
/// A capture that cannot lift the score this close to alpha is not searched.
pub const DELTA_PRUNING_MARGIN: i32 = 200;

/// The score of a draw for the side to move: contempt counts against the side the
/// search started for.
pub open spec fn draw_value(side: Color, root_color: Color, contempt: int) -> int {
    if side == root_color {
        SCORE_DRAW - contempt
    } else {
        SCORE_DRAW + contempt
    }
}

pub fn draw_score(side: Color, root_color: Color, contempt: i32) -> (r: Score)
    requires
        -SCORE_INF <= contempt <= SCORE_INF,
    ensures
        r == draw_value(side, root_color, contempt as int),
{
    let sign: i32 = if side == root_color {
        1
    } else {
        -1
    };
    SCORE_DRAW - (if sign == 1 {
        contempt
    } else {
        -contempt
    })
}

/// Mate distance pruning: no score better than mating at once from here, nor
/// worse than being mated at once, can matter.
pub open spec fn mate_window(alpha: int, beta: int, ply: int) -> (int, int) {
    let lo = -(SCORE_MATE - ply);
    let hi = SCORE_MATE - ply - 1;
    (if alpha >= lo {
        alpha
    } else {
        lo
    }, if beta <= hi {
        beta
    } else {
        hi
    })
}

pub fn mate_distance_window(alpha: Score, beta: Score, ply: usize) -> (r: (Score, Score))
    requires
        ply < 10_000,
    ensures
        (r.0 as int, r.1 as int) == mate_window(alpha as int, beta as int, ply as int),
{
    let lo = -(SCORE_MATE - ply as Score);
    let hi = SCORE_MATE - ply as Score - 1;
    (if alpha >= lo {
        alpha
    } else {
        lo
    }, if beta <= hi {
        beta
    } else {
        hi
    })
}

/// Reverse futility pruning: at a shallow node, a static evaluation that stays at
/// or above beta after a margin per ply (and is no mate score) cuts the node off
/// with that lowered score.
pub open spec fn rfp_value(depth: int, static_eval: int, beta: int) -> Option<int> {
    let margin = RFP_MARGIN_PER_DEPTH * depth;
    if depth <= RFP_MAX_DEPTH && static_eval - margin >= beta && !mate_score(static_eval) {
        Some(static_eval - margin)
    } else {
        None
    }
}

pub fn reverse_futility(depth: i32, static_eval: Score, beta: Score) -> (r: Option<Score>)
    requires
        -10_000 <= depth <= 10_000,
        -crate::qsearch::QS_BOUND <= static_eval <= crate::qsearch::QS_BOUND,
        -crate::qsearch::QS_BOUND <= beta <= crate::qsearch::QS_BOUND,
    ensures
        r matches Some(v) ==> rfp_value(depth as int, static_eval as int, beta as int) == Some(v as int),
        r is None ==> rfp_value(depth as int, static_eval as int, beta as int) is None,
{
    let margin = RFP_MARGIN_PER_DEPTH * depth;
    if depth <= RFP_MAX_DEPTH && static_eval - margin >= beta && !is_mate_score(static_eval) {
        Some(static_eval - margin)
    } else {
        None
    }
}

/// A null move is tried from `NULL_MOVE_MIN_DEPTH` on, when the static evaluation
/// reaches beta and the side to move has a piece besides pawns and king.
pub open spec fn null_move_allowed(b: Board, depth: int, static_eval: int, beta: int) -> bool {
    let us = b.side.idx();
    &&& depth >= NULL_MOVE_MIN_DEPTH
    &&& static_eval >= beta
    &&& b.occ[us] & !b.pieces[us][0] & !b.pieces[us][5] != 0
}

pub fn null_move_ok(board: &Board, depth: i32, static_eval: Score, beta: Score) -> (r: bool)
    ensures
        r == null_move_allowed(*board, depth as int, static_eval as int, beta as int),
{
    if depth < NULL_MOVE_MIN_DEPTH || static_eval < beta {
        return false;
    }
    let us = board.side.index();
    let our_pieces = board.occ[us] & !board.pieces[us][0] & !board.pieces[us][5];
    our_pieces != 0
}

/// The depth a null move searches to: the base reduction plus a ply per divisor.
pub fn null_move_depth(depth: i32) -> (d: i32)
    requires
        -10_000 <= depth <= 10_000,
    ensures
        d == depth - (NULL_MOVE_BASE_R + crate::config::div_trunc(depth as int, NULL_MOVE_DEPTH_DIVISOR as int)),
{
    let r = NULL_MOVE_BASE_R + depth / NULL_MOVE_DEPTH_DIVISOR;
    depth - r
}

/// The depth a move is searched to after a reduction: one ply less, reduced, but at
/// least one ply when reduced at all.
pub open spec fn reduced_depth(depth: int, reduction: int) -> int {
    if reduction > 0 {
        if depth - 1 - reduction >= 1 {
            depth - 1 - reduction
        } else {
            1
        }
    } else {
        depth - 1
    }
}

pub fn new_search_depth(depth: i32, reduction: i32) -> (d: i32)
    requires
        -10_000 <= depth <= 10_000,
    ensures
        d == reduced_depth(depth as int, reduction as int),
{
    if reduction > 0 {
        if reduction <= depth - 2 {
            depth - 1 - reduction
        } else {
            1
        }
    } else {
        depth - 1
    }
}

/// Delta pruning in the quiescence search: a capture whose victim, with the
/// margin, cannot lift the standing score to alpha is skipped.
pub open spec fn delta_pruned(is_capture: bool, stand_pat: int, cap_value: int, alpha: int) -> bool {
    is_capture && stand_pat + cap_value + DELTA_PRUNING_MARGIN < alpha
}

pub fn delta_prunes(is_capture: bool, stand_pat: Score, cap_value: i32, alpha: Score) -> (r: bool)
    requires
        -1_000_000_000 <= stand_pat <= 1_000_000_000,
        0 <= cap_value <= 20_000,
    ensures
        r == delta_pruned(is_capture, stand_pat as int, cap_value as int, alpha as int),
{
    is_capture && stand_pat + cap_value + DELTA_PRUNING_MARGIN < alpha
}

/// The amount the aspiration window widens by on its `expand`-th widening: the
/// first half-width, doubled `expand` times.
pub open spec fn aspiration_step(expand: nat) -> int
    decreases expand,
{
    if expand == 0 {
        ASPIRATION_DELTA as int
    } else {
        2 * aspiration_step((expand - 1) as nat)
    }
}

proof fn lemma_aspiration_step_grows(i: nat, j: nat)
    requires
        i <= j,
    ensures
        0 < aspiration_step(i) <= aspiration_step(j),
    decreases j,
{
    if i < j {
        lemma_aspiration_step_grows(i, (j - 1) as nat);
    } else if i > 0 {
        lemma_aspiration_step_grows((i - 1) as nat, (i - 1) as nat);
    }
}

/// The next aspiration window after a search of the window (alpha, beta) returned
/// `score`, on the `expand`-th widening: a fail low halves beta toward alpha and
/// lowers alpha by the widening step; a fail high raises beta by it; a score
/// inside the window ends the search (`None`).
pub open spec fn aspiration_next(score: int, alpha: int, beta: int, expand: nat) -> Option<(int, int)> {
    let step = aspiration_step(expand);
    if score <= alpha {
        let a = alpha - step;
        Some((if a >= -SCORE_INF {
            a
        } else {
            -SCORE_INF as int
        }, crate::config::div_trunc(alpha + beta, 2)))
    } else if score >= beta {
        let b = beta + step;
        Some((alpha, if b <= SCORE_INF {
            b
        } else {
            SCORE_INF as int
        }))
    } else {
        None
    }
}

pub fn aspiration_widen(score: Score, alpha: Score, beta: Score, expand: u32) -> (r: Option<(Score, Score)>)
    requires
        -SCORE_INF <= alpha <= beta <= SCORE_INF,
        expand < 16,
    ensures
        r matches Some(w) ==> aspiration_next(score as int, alpha as int, beta as int, expand as nat)
            == Some((w.0 as int, w.1 as int)),
        r is None ==> aspiration_next(score as int, alpha as int, beta as int, expand as nat) is None,
        r matches Some(w) ==> -SCORE_INF <= w.0 <= w.1 <= SCORE_INF,
{
    proof {
        assert(aspiration_step(16) == 1_638_400) by {
            reveal_with_fuel(aspiration_step, 17);
        }
    }
    let mut step: i32 = ASPIRATION_DELTA;
    let mut i: u32 = 0;
    while i < expand
        invariant
            i <= expand < 16,
            step == aspiration_step(i as nat),
            aspiration_step(16) == 1_638_400,
        decreases expand - i,
    {
        proof {
            lemma_aspiration_step_grows((i + 1) as nat, 16);
        }
        step = step * 2;
        i = i + 1;
    }
    proof {
        lemma_aspiration_step_grows(expand as nat, 16);
    }
    if score <= alpha {
        let a = alpha - step;
        Some((if a >= -SCORE_INF {
            a
        } else {
            -SCORE_INF
        }, (alpha + beta) / 2))
    } else if score >= beta {
        let b = beta + step;
        Some((alpha, if b <= SCORE_INF {
            b
        } else {
            SCORE_INF
        }))
    } else {
        None
    }
}


// ---------------------------------------------------------------- the move to play

/// The move a search with no completed iteration plays: the side to move's first
/// legal move in generation order, or no move when it has none.
pub open spec fn fallback_of(b: Board, z: crate::zobrist::Zobrist) -> Move {
    let legal = crate::diagnostics::legal_moves(b, z, b.side);
    if legal.len() > 0 {
        legal[0]
    } else {
        MOVE_NONE
    }
}

pub fn fallback_move(board: &Board, atk: &AttackTables, z: &crate::zobrist::Zobrist) -> (m: Move)
    requires
        atk.wf(),
        board.consistent(),
        crate::diagnostics::moves_playable(*board, board.side),
    ensures
        m == fallback_of(*board, *z),
{
    let legal = crate::diagnostics::legal_moves_for_color(board, atk, z, board.side);
    if legal.len() > 0 {
        legal[0]
    } else {
        MOVE_NONE
    }
}

/// Iterative deepening stops after an iteration once the soft budget (when there is
/// one) is spent, or once the score is a mate score.
pub fn deepening_done(soft_budget: u64, elapsed: u64, score: Score) -> (r: bool)
    ensures
        r == ((soft_budget > 0 && elapsed >= soft_budget) || mate_score(score as int)),
{
    (soft_budget > 0 && elapsed >= soft_budget) || is_mate_score(score)
}

/// What an iteration of deepening leaves as the best move and score: a stopped
/// iteration is discarded (`None`), so the last completed one stands; a completed one
/// gives its score, and its principal variation's first move when it has one (else
/// the move kept so far).
pub fn completed_iteration(best_move: Move, stopped: bool, score: Score, pv_head: Option<Move>) -> (r: Option<(Move, Score)>)
    ensures
        stopped ==> r is None,
        !stopped ==> r == Some((
            match pv_head {
                Some(m) => m,
                None => best_move,
            },
            score,
        )),
{
    if stopped {
        return None;
    }
    match pv_head {
        Some(m) => Some((m, score)),
        None => Some((best_move, score)),
    }
}

} // verus!
