use vstd::prelude::*;

use crate::board::{attacked_by, Board, UndoInfo};
use crate::clock::{elapsed_ms, stop_requested, StopClock};
use crate::config::EngineOptions;
use crate::eval::{evaluate, scales_ok, EvalContext};
use crate::magic::AttackTables;
use crate::makemove::{lemma_make_post_unique, lemma_unmake_undoes_make, make_post, move_applicable};
use crate::movegen::{capture_moves, gen_captures, gen_moves, generable, pseudo_moves, MoveList};
use crate::perft::{king_safe, made_by, successor};
use crate::search::{
    capture_order_score, counter_for, delta_prunes, order_score, Limits, OrderingTables, PlyInfo,
    SearchStats, MAX_PLY, SCORE_MATE,
};
use crate::see::{see_move_ok, see_value, static_exchange_eval};
use crate::types::{
    flags_of, move_flags, move_to, piece_type, to_of, Color, Move, PieceType, Score,
    MF_EN_PASSANT, MF_PROMOTION, MOVE_NONE, NO_SQUARE, PIECE_NONE,
};
use crate::zobrist::Zobrist;

verus! {

/// Within check, the capture search tries evasions for this many plies of its own.
pub const QS_CHECK_EVASION_MAX_PLY: usize = 2;

/// The bound every capture-search score keeps: evaluations, mate scores and the
/// window all lie within it.
pub const QS_BOUND: i32 = 4_100_000;

// ---------------------------------------------------------------- stopping

/// What a search run counts and whether it has been stopped, with its ply stack
/// and statistics.
pub struct SearchRun {
    pub nodes: u64,
    pub stopped: bool,
    pub stack: [PlyInfo; 128],
    pub stats: SearchStats,
}

impl SearchRun {
    /// Whether the search must stop now: once stopped it stays stopped; it stops at
    /// the node limit, and every 4096 nodes it polls the stop flag and, with a move
    /// time, the clock. Only `stopped` changes.
    pub fn should_stop(&mut self, clock: &StopClock, limits: &Limits) -> (r: bool)
        ensures
            r == final(self).stopped,
            old(self).stopped ==> r,
            limits.nodes > 0 && old(self).nodes >= limits.nodes ==> r,
            !old(self).stopped && !(limits.nodes > 0 && old(self).nodes >= limits.nodes)
                && old(self).nodes & 4095 != 0 ==> !r,
            final(self).nodes == old(self).nodes,
            final(self).stack == old(self).stack,
            final(self).stats == old(self).stats,
    {
        if self.stopped {
            return true;
        }
        if limits.nodes > 0 && self.nodes >= limits.nodes {
            self.stopped = true;
            return true;
        }
        if self.nodes & 4095 == 0 {
            if stop_requested(clock.flag) {
                self.stopped = true;
                return true;
            }
            if limits.move_time > 0 && elapsed_ms(&clock.start) >= limits.move_time {
                self.stopped = true;
                return true;
            }
        }
        false
    }
}

// ---------------------------------------------------------------- what it needs

/// The side to move is in check.
pub open spec fn in_check(b: Board) -> bool {
    let k = b.king_sq[b.side.idx()];
    k != NO_SQUARE && attacked_by(b, k as int, b.side.opposite())
}

/// Every position the capture search can reach from `b` can be searched: below the
/// ply limit its moves can be generated into a move list and made, and each move's
/// exchange can be evaluated (what the search relies on: its move lists and tables
/// have fixed sizes).
#[verifier::opaque]
pub open spec fn qsearch_ok(b: Board, z: Zobrist, ply: nat, qs_ply: nat) -> bool
    decreases MAX_PLY - ply,
{
    ply >= MAX_PLY || {
        &&& b.consistent()
        &&& b.kings_indexed()
        &&& generable(b)
        &&& if in_check(b) {
            qs_ply >= QS_CHECK_EVASION_MAX_PLY || {
                &&& pseudo_moves(b).len() <= 256
                &&& forall|i: int|
                    0 <= i < pseudo_moves(b).len() ==> {
                        &&& move_applicable(b, #[trigger] pseudo_moves(b)[i])
                        &&& qsearch_ok(successor(b, pseudo_moves(b)[i], z), z, ply + 1, qs_ply + 1)
                    }
            }
        } else {
            &&& capture_moves(b).len() <= 256
            &&& forall|i: int|
                0 <= i < capture_moves(b).len() ==> {
                    &&& move_applicable(b, #[trigger] capture_moves(b)[i])
                    &&& see_move_ok(b, capture_moves(b)[i])
                    &&& qsearch_ok(successor(b, capture_moves(b)[i], z), z, ply + 1, qs_ply + 1)
                }
        }
    }
}

proof fn lemma_qsearch_ok_unfold(b: Board, z: Zobrist, ply: nat, qs_ply: nat)
    requires
        qsearch_ok(b, z, ply, qs_ply),
        ply < MAX_PLY,
    ensures
        b.consistent(),
        b.kings_indexed(),
        generable(b),
        in_check(b) && qs_ply < QS_CHECK_EVASION_MAX_PLY ==> {
            &&& pseudo_moves(b).len() <= 256
            &&& forall|i: int|
                0 <= i < pseudo_moves(b).len() ==> {
                    &&& move_applicable(b, #[trigger] pseudo_moves(b)[i])
                    &&& qsearch_ok(successor(b, pseudo_moves(b)[i], z), z, ply + 1, qs_ply + 1)
                }
        },
        !in_check(b) ==> {
            &&& capture_moves(b).len() <= 256
            &&& forall|i: int|
                0 <= i < capture_moves(b).len() ==> {
                    &&& move_applicable(b, #[trigger] capture_moves(b)[i])
                    &&& see_move_ok(b, capture_moves(b)[i])
                    &&& qsearch_ok(successor(b, capture_moves(b)[i], z), z, ply + 1, qs_ply + 1)
                }
        },
{
    reveal_with_fuel(qsearch_ok, 1);
}

/// The fixed things the capture search reads.
pub struct QContext<'a> {
    pub atk: &'a AttackTables,
    pub z: &'a Zobrist,
    pub options: &'a EngineOptions,
    pub tables: &'a OrderingTables,
    pub limits: &'a Limits,
    pub clock: &'a StopClock<'a>,
}

impl<'a> QContext<'a> {
    pub open spec fn wf(&self) -> bool {
        &&& self.atk.wf()
        &&& self.tables.wf()
        &&& scales_ok(self.options.eval)
    }
}

fn eval_here(board: &Board, q: &QContext) -> (v: Score)
    requires
        board.consistent(),
        q.wf(),
    ensures
        -QS_BOUND < v < QS_BOUND,
        v == qs_eval(*board, *q.options),
{
    evaluate(board, &EvalContext { atk: q.atk, options: q.options })
}

/// Every move of the list is one of the moves of `ms`.
pub open spec fn list_within(list: MoveList, ms: Seq<Move>) -> bool {
    forall|j: int| 0 <= j < list.count ==> ms.contains(#[trigger] list.moves@[j])
}

pub proof fn lemma_pick_keeps_within(l0: MoveList, l1: MoveList, start: int, ms: Seq<Move>)
    requires
        list_within(l0, ms),
        l0.wf(),
        0 <= start < l0.count,
        l1.count == l0.count,
        exists|b: int|
            {
                &&& start <= b < 256
                &&& (b == start || b < l0.count)
                &&& l1.moves@ == l0.moves@.update(start, l0.moves@[b]).update(b, l0.moves@[start])
            },
    ensures
        list_within(l1, ms),
{
    let b = choose|b: int|
        {
            &&& start <= b < 256
            &&& (b == start || b < l0.count)
            &&& l1.moves@ == l0.moves@.update(start, l0.moves@[b]).update(b, l0.moves@[start])
        };
    assert forall|j: int| 0 <= j < l1.count implies ms.contains(#[trigger] l1.moves@[j]) by {
        if j == b {
            assert(l1.moves@[j] == l0.moves@[start]);
        } else if j == start {
            assert(l1.moves@[j] == l0.moves@[b]);
        } else {
            assert(l1.moves@[j] == l0.moves@[j]);
        }
    }
}

// ---------------------------------------------------------------- its value

/// The static evaluation the capture search stands on.
pub open spec fn qs_eval(b: Board, o: EngineOptions) -> int {
    crate::eval::breakdown_value(b, o.eval).side_to_move_score as int
}

/// Index `b` is the one the selection step takes from `start` on: the first of the
/// best scores before `count`.
pub open spec fn picks(scores: Seq<i32>, start: int, count: int, b: int) -> bool {
    &&& start <= b < count
    &&& forall|i: int| start <= i < count ==> #[trigger] scores[i] <= scores[b]
    &&& forall|i: int| start <= i < b ==> #[trigger] scores[i] < scores[b]
}

/// The index the selection step takes from `start` on.
pub open spec fn best_from(scores: Seq<i32>, start: int) -> int {
    choose|b: int| picks(scores, start, scores.len() as int, b)
}

/// `s` with its entries at `i` and `j` swapped.
pub open spec fn swapped<T>(s: Seq<T>, i: int, j: int) -> Seq<T> {
    Seq::new(
        s.len(),
        |k: int|
            if k == j {
                s[i]
            } else if k == i {
                s[j]
            } else {
                s[k]
            },
    )
}

/// A capture the search passes over: one that cannot lift the standing score to
/// alpha, a losing exchange that promotes nothing (when SEE pruning is on), or one
/// that leaves the mover's king attacked.
pub open spec fn qs_skips(b: Board, o: EngineOptions, z: Zobrist, m: Move, alpha: int, stand_pat: int) -> bool {
    let is_cap = b.sq_piece[to_of(m) as int] != PIECE_NONE || flags_of(m) == MF_EN_PASSANT;
    ||| crate::search::delta_pruned(is_cap, stand_pat, qs_cap_value(b, m), alpha)
    ||| (o.search.see && o.search.see_qsearch_pruning && see_value(b, m) < 0 && flags_of(m)
        != MF_PROMOTION)
    ||| !king_safe(successor(b, m, z), b.side)
}

/// The stack with the move searched at `ply` recorded.
pub open spec fn with_current(stack: Seq<PlyInfo>, ply: int, m: Move) -> Seq<PlyInfo> {
    stack.update(ply, PlyInfo { current_move: m, ..stack[ply] })
}

/// The move-ordering scores of the evasions at `b`.
pub open spec fn evasion_scores(b: Board, t: OrderingTables, stack: Seq<PlyInfo>, ply: nat) -> Seq<i32> {
    let ms = pseudo_moves(b);
    Seq::new(
        ms.len(),
        |k: int|
            order_score(
                t.killers@,
                t.history@,
                t.cap_history@,
                b,
                ms[k],
                MOVE_NONE,
                ply as int,
                counter_for(t.counter@, stack, ply as int),
                b.side.idx(),
            ) as i32,
    )
}

/// The capture-ordering scores of the captures at `b`.
pub open spec fn capture_scores(b: Board, t: OrderingTables, o: EngineOptions) -> Seq<i32> {
    let ms = capture_moves(b);
    Seq::new(
        ms.len(),
        |k: int|
            capture_order_score(
                t.cap_history@,
                b,
                ms[k],
                b.side.idx(),
                o.search.see && o.search.see_capture_ordering,
            ) as i32,
    )
}

/// The value of what a move takes, for delta pruning: the piece on its target, or a
/// pawn for en passant.
pub open spec fn qs_cap_value(b: Board, m: Move) -> int {
    let p = b.sq_piece[to_of(m) as int];
    if p != PIECE_NONE {
        crate::types::material_of(crate::types::type_of_piece(p))
    } else if flags_of(m) == MF_EN_PASSANT {
        100
    } else {
        0
    }
}

/// The value of the capture search at `b` with window (alpha, beta), and the ply
/// stack it leaves: the evaluation at the ply limit or past the check-evasion plies;
/// in check, the evasions in move-ordering order; out of check, the stand pat and
/// then the captures and promotions in capture order.
pub open spec fn qs_value(
    b: Board,
    t: OrderingTables,
    o: EngineOptions,
    z: Zobrist,
    stack: Seq<PlyInfo>,
    alpha: int,
    beta: int,
    ply: nat,
    qs_ply: nat,
) -> (int, Seq<PlyInfo>)
    decreases MAX_PLY - ply, 2int, 0int,
{
    if ply >= MAX_PLY {
        (qs_eval(b, o), stack)
    } else if in_check(b) {
        if qs_ply >= QS_CHECK_EVASION_MAX_PLY {
            (qs_eval(b, o), stack)
        } else {
            qs_evasions(b, t, o, z, stack, pseudo_moves(b), evasion_scores(b, t, stack, ply), 0, alpha, beta, false, ply, qs_ply)
        }
    } else {
        let sp = qs_eval(b, o);
        if sp >= beta {
            (sp, stack)
        } else {
            qs_captures(b, t, o, z, stack, capture_moves(b), capture_scores(b, t, o), 0, if sp > alpha { sp } else { alpha }, beta, sp, ply, qs_ply)
        }
    }
}

/// The evasion loop from entry `i` on: each legal evasion is searched with the
/// window narrowed by what came before; a score at beta or above returns at once;
/// with no legal evasion at all the side is mated.
pub open spec fn qs_evasions(
    b: Board,
    t: OrderingTables,
    o: EngineOptions,
    z: Zobrist,
    stack: Seq<PlyInfo>,
    moves: Seq<Move>,
    scores: Seq<i32>,
    i: int,
    alpha: int,
    beta: int,
    legal: bool,
    ply: nat,
    qs_ply: nat,
) -> (int, Seq<PlyInfo>)
    decreases MAX_PLY - ply, 1int, moves.len() - i,
{
    if ply >= MAX_PLY || i < 0 || i >= moves.len() || scores.len() != moves.len() {
        (if legal { alpha } else { -(SCORE_MATE - ply) }, stack)
    } else {
        let bi = best_from(scores, i);
        let moves2 = swapped(moves, i, bi);
        let scores2 = swapped(scores, i, bi);
        let m = moves2[i];
        let b1 = successor(b, m, z);
        if !king_safe(b1, b.side) {
            qs_evasions(b, t, o, z, stack, moves2, scores2, i + 1, alpha, beta, legal, ply, qs_ply)
        } else {
            let (cv, stack2) = qs_value(b1, t, o, z, with_current(stack, ply as int, m), -beta, -alpha, ply + 1, qs_ply + 1);
            let score = -cv;
            if score >= beta {
                (score, stack2)
            } else {
                qs_evasions(
                    b,
                    t,
                    o,
                    z,
                    stack2,
                    moves2,
                    scores2,
                    i + 1,
                    if score > alpha { score } else { alpha },
                    beta,
                    true,
                    ply,
                    qs_ply,
                )
            }
        }
    }
}

/// The capture loop from entry `i` on: each capture not passed over is searched
/// with the window narrowed by what came before; a score at beta or above returns
/// at once; otherwise the best of alpha and the scores found.
pub open spec fn qs_captures(
    b: Board,
    t: OrderingTables,
    o: EngineOptions,
    z: Zobrist,
    stack: Seq<PlyInfo>,
    moves: Seq<Move>,
    scores: Seq<i32>,
    i: int,
    alpha: int,
    beta: int,
    stand_pat: int,
    ply: nat,
    qs_ply: nat,
) -> (int, Seq<PlyInfo>)
    decreases MAX_PLY - ply, 1int, moves.len() - i,
{
    if ply >= MAX_PLY || i < 0 || i >= moves.len() || scores.len() != moves.len() {
        (alpha, stack)
    } else {
        let bi = best_from(scores, i);
        let moves2 = swapped(moves, i, bi);
        let scores2 = swapped(scores, i, bi);
        let m = moves2[i];
        if qs_skips(b, o, z, m, alpha, stand_pat) {
            qs_captures(b, t, o, z, stack, moves2, scores2, i + 1, alpha, beta, stand_pat, ply, qs_ply)
        } else {
            let (cv, stack2) = qs_value(successor(b, m, z), t, o, z, stack, -beta, -alpha, ply + 1, qs_ply + 1);
            let score = -cv;
            if score >= beta {
                (score, stack2)
            } else {
                qs_captures(
                    b,
                    t,
                    o,
                    z,
                    stack2,
                    moves2,
                    scores2,
                    i + 1,
                    if score > alpha { score } else { alpha },
                    beta,
                    stand_pat,
                    ply,
                    qs_ply,
                )
            }
        }
    }
}

/// The selection step does what the spec's does: within the count, the list is the
/// one with the entry at `start` swapped with the first of the best scores.
proof fn lemma_pick_is_spec(l0: MoveList, l1: MoveList, start: int)
    requires
        l0.wf(),
        0 <= start < l0.count,
        l1.count == l0.count,
        exists|b: int|
            {
                &&& start <= b < 256
                &&& (b == start || b < l0.count)
                &&& forall|i: int| start <= i < l0.count ==> #[trigger] l0.scores@[i] <= l0.scores@[b]
                &&& forall|i: int| start <= i < b ==> #[trigger] l0.scores@[i] < l0.scores@[b]
                &&& l1.moves@ == l0.moves@.update(start, l0.moves@[b]).update(b, l0.moves@[start])
                &&& l1.scores@ == l0.scores@.update(start, l0.scores@[b]).update(b, l0.scores@[start])
            },
    ensures
        l1.moves@.subrange(0, l1.count as int) == swapped(
            l0.moves@.subrange(0, l0.count as int),
            start,
            best_from(l0.scores@.subrange(0, l0.count as int), start),
        ),
        l1.scores@.subrange(0, l1.count as int) == swapped(
            l0.scores@.subrange(0, l0.count as int),
            start,
            best_from(l0.scores@.subrange(0, l0.count as int), start),
        ),
{
    let c = l0.count as int;
    let b = choose|b: int|
        {
            &&& start <= b < 256
            &&& (b == start || b < l0.count)
            &&& forall|i: int| start <= i < l0.count ==> #[trigger] l0.scores@[i] <= l0.scores@[b]
            &&& forall|i: int| start <= i < b ==> #[trigger] l0.scores@[i] < l0.scores@[b]
            &&& l1.moves@ == l0.moves@.update(start, l0.moves@[b]).update(b, l0.moves@[start])
            &&& l1.scores@ == l0.scores@.update(start, l0.scores@[b]).update(b, l0.scores@[start])
        };
    let sc = l0.scores@.subrange(0, c);
    assert(picks(sc, start, c, b));
    let b2 = best_from(sc, start);
    assert(picks(sc, start, c, b2));
    if b2 < b {
        assert(sc[b2] < sc[b]);
        assert(sc[b] <= sc[b2]);
    }
    if b < b2 {
        assert(sc[b] < sc[b2]);
        assert(sc[b2] <= sc[b]);
    }
    assert(b2 == b);
    assert(l1.moves@.subrange(0, c) =~= swapped(l0.moves@.subrange(0, c), start, b));
    assert(l1.scores@.subrange(0, c) =~= swapped(sc, start, b));
}

// ---------------------------------------------------------------- the search

/// The capture search (quiescence): out of check the side to move may stand pat on
/// its evaluation and tries captures and promotions, skipping those that cannot
/// reach alpha (delta pruning) and, when enabled, losing exchanges that promote
/// nothing; in check, for its first plies, it tries every evasion and is mated when
/// none is legal. It returns 0 once the search is stopped; unless it was stopped,
/// its score and the ply stack it leaves are `qs_value`'s. The board is given back
/// as it was.
#[verifier::rlimit(40)]
pub fn quiescence(
    board: &mut Board,
    q: &QContext,
    run: &mut SearchRun,
    alpha: Score,
    beta: Score,
    ply: usize,
    qs_ply: usize,
) -> (v: Score)
    requires
        old(board).consistent(),
        qsearch_ok(*old(board), *q.z, ply as nat, qs_ply as nat),
        q.wf(),
        -QS_BOUND < alpha < beta < QS_BOUND,
        qs_ply <= ply,
    ensures
        *final(board) == *old(board),
        -QS_BOUND < v < QS_BOUND,
        old(run).stopped ==> final(run).stopped && v == 0,
        !final(run).stopped ==> (v as int, final(run).stack@) == qs_value(
            *old(board),
            *q.tables,
            *q.options,
            *q.z,
            old(run).stack@,
            alpha as int,
            beta as int,
            ply as nat,
            qs_ply as nat,
        ),
        !final(run).stopped && ply < MAX_PLY && in_check(*old(board)) && qs_ply
            < QS_CHECK_EVASION_MAX_PLY && crate::diagnostics::legal_moves(
            *old(board),
            *q.z,
            old(board).side,
        ).len() == 0 ==> v == -(SCORE_MATE - ply),
    decreases MAX_PLY - ply, 2int,
{
    if run.should_stop(q.clock, q.limits) {
        return 0;
    }
    run.nodes = run.nodes.wrapping_add(1);
    run.stats.qnodes = run.stats.qnodes.wrapping_add(1);
    if ply >= MAX_PLY {
        return eval_here(board, q);
    }
    proof {
        lemma_qsearch_ok_unfold(*board, *q.z, ply as nat, qs_ply as nat);
    }
    if board.is_in_check(board.side) {
        if qs_ply >= QS_CHECK_EVASION_MAX_PLY {
            return eval_here(board, q);
        }
        return qs_evasion_loop(board, q, run, alpha, beta, ply, qs_ply);
    }
    // Captures only; standing pat is legal out of check.
    let stand_pat = eval_here(board, q);
    if stand_pat >= beta {
        return stand_pat;
    }
    let a = if stand_pat > alpha {
        stand_pat
    } else {
        alpha
    };
    qs_capture_loop(board, q, run, a, beta, stand_pat, ply, qs_ply)
}

/// The evasions of a side in check, searched in move-ordering order.
#[verifier::rlimit(100)]
fn qs_evasion_loop(
    board: &mut Board,
    q: &QContext,
    run: &mut SearchRun,
    alpha: Score,
    beta: Score,
    ply: usize,
    qs_ply: usize,
) -> (v: Score)
    requires
        old(board).consistent(),
        old(board).kings_indexed(),
        generable(*old(board)),
        in_check(*old(board)),
        ply < MAX_PLY,
        qs_ply < QS_CHECK_EVASION_MAX_PLY,
        qs_ply <= ply,
        q.wf(),
        -QS_BOUND < alpha < beta < QS_BOUND,
        !old(run).stopped,
        pseudo_moves(*old(board)).len() <= 256,
        forall|i: int|
            0 <= i < pseudo_moves(*old(board)).len() ==> {
                &&& move_applicable(*old(board), #[trigger] pseudo_moves(*old(board))[i])
                &&& qsearch_ok(successor(*old(board), pseudo_moves(*old(board))[i], *q.z), *q.z, ply as nat + 1, qs_ply as nat + 1)
            },
    ensures
        *final(board) == *old(board),
        -QS_BOUND < v < QS_BOUND,
        !final(run).stopped ==> (v as int, final(run).stack@) == qs_evasions(
            *old(board),
            *q.tables,
            *q.options,
            *q.z,
            old(run).stack@,
            pseudo_moves(*old(board)),
            evasion_scores(*old(board), *q.tables, old(run).stack@, ply as nat),
            0,
            alpha as int,
            beta as int,
            false,
            ply as nat,
            qs_ply as nat,
        ),
        !final(run).stopped && crate::diagnostics::legal_moves(*old(board), *q.z, old(board).side).len()
            == 0 ==> v == -(SCORE_MATE - ply),
    decreases MAX_PLY - ply, 1int,
{
    let ghost b0 = *board;
    let ghost stack0 = run.stack@;
    let z = q.z;
    let mut a: Score = alpha;
    let mut list = gen_moves(board, q.atk);
    let ghost ms = pseudo_moves(b0);
    proof {
        assert forall|j: int| 0 <= j < list.count implies ms.contains(#[trigger] list.moves@[j]) by {
            assert(list.moves@[j] == ms[j]);
        }
        assert forall|j: int| 0 <= j < list.count implies #[trigger] b0.sq_piece[crate::types::from_of(list.moves[j]) as int] < 12 by {
            assert(list.moves@[j] == ms[j]);
            assert(move_applicable(b0, ms[j]));
        }
    }
    q.tables.score_moves(board, &mut list, MOVE_NONE, ply, &run.stack);
    let ghost target = qs_evasions(b0, *q.tables, *q.options, *z, stack0, ms, evasion_scores(b0, *q.tables, stack0, ply as nat), 0, alpha as int, beta as int, false, ply as nat, qs_ply as nat);
    proof {
        assert(list.moves@.subrange(0, list.count as int) =~= ms);
        assert(list.scores@.subrange(0, list.count as int) =~= evasion_scores(b0, *q.tables, stack0, ply as nat));
    }
    let mut legal: u32 = 0;
    let mut i: usize = 0;
    while i < list.count
        invariant
            *board == b0,
            b0 == *old(board),
            b0.consistent(),
            b0.kings_indexed(),
            ply < MAX_PLY,
            qs_ply < QS_CHECK_EVASION_MAX_PLY,
            qs_ply <= ply,
            q.wf(),
            z == q.z,
            ms == pseudo_moves(b0),
            ms.len() <= 256,
            forall|kk: int|
                0 <= kk < ms.len() ==> move_applicable(b0, #[trigger] ms[kk]) && qsearch_ok(
                    successor(b0, ms[kk], *z),
                    *z,
                    ply as nat + 1,
                    qs_ply as nat + 1,
                ),
            list.wf(),
            list.count == ms.len(),
            list_within(list, ms),
            i <= list.count,
            legal <= i,
            -QS_BOUND < a < beta < QS_BOUND,
            !run.stopped,
            legal > 0 ==> crate::diagnostics::legal_moves(b0, *z, b0.side).len() > 0,
            stack0 == old(run).stack@,
            target == qs_evasions(b0, *q.tables, *q.options, *z, stack0, ms, evasion_scores(b0, *q.tables, stack0, ply as nat),
                0, alpha as int, beta as int, false, ply as nat, qs_ply as nat),
            qs_evasions(b0, *q.tables, *q.options, *z, run.stack@, list.moves@.subrange(0, list.count as int),
                list.scores@.subrange(0, list.count as int), i as int, a as int, beta as int, legal > 0,
                ply as nat, qs_ply as nat) == target,
        decreases list.count - i,
    {
        let ghost l0 = list;
        let ghost st = run.stack@;
        let ghost legal0 = legal;
        list.pick_best(i);
        proof {
            lemma_pick_keeps_within(l0, list, i as int, ms);
            lemma_pick_is_spec(l0, list, i as int);
        }
        let m = list.moves[i];
        let ghost k = choose|k: int| 0 <= k < ms.len() && ms[k] == m;
        proof {
            assert(ms.contains(m));
            assert(move_applicable(b0, ms[k]));
            assert(qsearch_ok(successor(b0, ms[k], *z), *z, ply as nat + 1, qs_ply as nat + 1));
        }
        let undo = board.make_move(m, z);
        let ghost b1 = *board;
        proof {
            assert(made_by(b0, b1, m, *z));
            let s = successor(b0, m, *z);
            assert(made_by(b0, s, m, *z));
            let us = choose|u: UndoInfo| #[trigger] make_post(b0, s, u, m, *z);
            lemma_make_post_unique(b0, b1, undo, s, us, m, *z);
            crate::types::lemma_flip_involution(b0.side);
            lemma_unmake_undoes_make(b0, b1, undo, b0, m, *z);
            assert(list.moves@.subrange(0, list.count as int)[i as int] == m);
        }
        if board.is_in_check(board.side.flip()) {
            board.unmake_move(m, &undo, z);
            proof {
                lemma_unmake_undoes_make(b0, b1, undo, *board, m, *z);
            }
            i += 1;
            continue;
        }
        proof {
            let pred = |mm: Move| king_safe(successor(b0, mm, *z), b0.side);
            assert(crate::diagnostics::prepared(b0, b0.side) == b0);
            assert(successor(b0, m, *z) == b1);
            assert(pred(ms[k]));
            ms.filter_lemma(pred);
            assert(ms.filter(pred).contains(ms[k]));
        }
        legal += 1;
        let mut info = run.stack[ply];
        info.current_move = m;
        run.stack[ply] = info;
        proof {
            assert(run.stack@ =~= with_current(st, ply as int, m));
        }
        let score = -quiescence(board, q, run, -beta, -a, ply + 1, qs_ply + 1);
        board.unmake_move(m, &undo, z);
        proof {
            lemma_unmake_undoes_make(b0, b1, undo, *board, m, *z);
        }
        if run.stopped {
            return 0;
        }
        if score >= beta {
            proof {
                let lm = l0.moves@.subrange(0, l0.count as int);
                let ls = l0.scores@.subrange(0, l0.count as int);
                assert(qs_evasions(b0, *q.tables, *q.options, *z, st, lm, ls, i as int, a as int, beta as int,
                    legal0 > 0, ply as nat, qs_ply as nat) == (score as int, run.stack@));
            }
            return score;
        }
        if score > a {
            a = score;
        }
        i += 1;
    }
    if legal == 0 {
        return -(SCORE_MATE - ply as Score);
    }
    a
}

/// The captures and promotions of a side out of check, searched in capture order
/// after standing pat.
#[verifier::rlimit(100)]
fn qs_capture_loop(
    board: &mut Board,
    q: &QContext,
    run: &mut SearchRun,
    alpha: Score,
    beta: Score,
    stand_pat: Score,
    ply: usize,
    qs_ply: usize,
) -> (v: Score)
    requires
        old(board).consistent(),
        old(board).kings_indexed(),
        !in_check(*old(board)),
        ply < MAX_PLY,
        qs_ply <= ply,
        q.wf(),
        -QS_BOUND < alpha < beta < QS_BOUND,
        -QS_BOUND < stand_pat < QS_BOUND,
        !old(run).stopped,
        capture_moves(*old(board)).len() <= 256,
        forall|i: int|
            0 <= i < capture_moves(*old(board)).len() ==> {
                &&& move_applicable(*old(board), #[trigger] capture_moves(*old(board))[i])
                &&& see_move_ok(*old(board), capture_moves(*old(board))[i])
                &&& qsearch_ok(successor(*old(board), capture_moves(*old(board))[i], *q.z), *q.z, ply as nat + 1, qs_ply as nat + 1)
            },
    ensures
        *final(board) == *old(board),
        -QS_BOUND < v < QS_BOUND,
        !final(run).stopped ==> (v as int, final(run).stack@) == qs_captures(
            *old(board),
            *q.tables,
            *q.options,
            *q.z,
            old(run).stack@,
            capture_moves(*old(board)),
            capture_scores(*old(board), *q.tables, *q.options),
            0,
            alpha as int,
            beta as int,
            stand_pat as int,
            ply as nat,
            qs_ply as nat,
        ),
    decreases MAX_PLY - ply, 1int,
{
    let ghost b0 = *board;
    let ghost stack0 = run.stack@;
    let z = q.z;
    let mut a: Score = alpha;
    let mut list = gen_captures(board, q.atk);
    let ghost ms = capture_moves(b0);
    proof {
        assert forall|j: int| 0 <= j < list.count implies ms.contains(#[trigger] list.moves@[j]) by {
            assert(list.moves@[j] == ms[j]);
        }
        assert forall|j: int| 0 <= j < list.count implies #[trigger] b0.sq_piece[crate::types::from_of(list.moves[j]) as int] < 12 by {
            assert(list.moves@[j] == ms[j]);
            assert(move_applicable(b0, ms[j]));
        }
        assert forall|j: int| 0 <= j < list.count implies see_move_ok(b0, #[trigger] list.moves[j]) by {
            assert(list.moves@[j] == ms[j]);
        }
    }
    q.tables.score_captures(board, q.atk, &q.options.search, &mut list);
    let ghost target = qs_captures(b0, *q.tables, *q.options, *z, stack0, ms, capture_scores(b0, *q.tables, *q.options), 0, alpha as int, beta as int, stand_pat as int, ply as nat, qs_ply as nat);
    proof {
        assert(list.moves@.subrange(0, list.count as int) =~= ms);
        assert(list.scores@.subrange(0, list.count as int) =~= capture_scores(b0, *q.tables, *q.options));
    }
    let mut i: usize = 0;
    while i < list.count
        invariant
            *board == b0,
            b0 == *old(board),
            b0.consistent(),
            b0.kings_indexed(),
            ply < MAX_PLY,
            qs_ply <= ply,
            q.wf(),
            z == q.z,
            ms == capture_moves(b0),
            ms.len() <= 256,
            forall|kk: int|
                0 <= kk < ms.len() ==> move_applicable(b0, #[trigger] ms[kk]) && see_move_ok(b0, ms[kk])
                    && qsearch_ok(successor(b0, ms[kk], *z), *z, ply as nat + 1, qs_ply as nat + 1),
            list.wf(),
            list.count == ms.len(),
            list_within(list, ms),
            i <= list.count,
            -QS_BOUND < stand_pat < QS_BOUND,
            -QS_BOUND < a < beta < QS_BOUND,
            stack0 == old(run).stack@,
            target == qs_captures(b0, *q.tables, *q.options, *z, stack0, ms, capture_scores(b0, *q.tables, *q.options),
                0, alpha as int, beta as int, stand_pat as int, ply as nat, qs_ply as nat),
            !run.stopped ==> qs_captures(b0, *q.tables, *q.options, *z, run.stack@, list.moves@.subrange(0, list.count as int),
                list.scores@.subrange(0, list.count as int), i as int, a as int, beta as int, stand_pat as int,
                ply as nat, qs_ply as nat) == target,
        decreases list.count - i,
    {
        let ghost l0 = list;
        let ghost st = run.stack@;
        let ghost stopped0 = run.stopped;
        list.pick_best(i);
        proof {
            lemma_pick_keeps_within(l0, list, i as int, ms);
            lemma_pick_is_spec(l0, list, i as int);
        }
        let m = list.moves[i];
        let ghost k = choose|k: int| 0 <= k < ms.len() && ms[k] == m;
        proof {
            assert(ms.contains(m));
            assert(move_applicable(b0, ms[k]));
            assert(see_move_ok(b0, ms[k]));
            assert(qsearch_ok(successor(b0, ms[k], *z), *z, ply as nat + 1, qs_ply as nat + 1));
            assert(list.moves@.subrange(0, list.count as int)[i as int] == m);
        }
        // Delta pruning
        let cap_piece = board.sq_piece[move_to(m) as usize];
        let is_capture = cap_piece != PIECE_NONE || move_flags(m) == MF_EN_PASSANT;
        let cap_value = if cap_piece != PIECE_NONE {
            piece_type(cap_piece).material_value()
        } else if move_flags(m) == MF_EN_PASSANT {
            PieceType::Pawn.material_value()
        } else {
            0
        };
        proof {
            assert(cap_value == qs_cap_value(b0, m));
        }
        if delta_prunes(is_capture, stand_pat, cap_value, a) {
            i += 1;
            continue;
        }
        if q.options.search.see && q.options.search.see_qsearch_pruning {
            let see = static_exchange_eval(board, q.atk, m);
            if see > 0 {
                run.stats.see_win_caps = run.stats.see_win_caps.wrapping_add(1);
            } else if see == 0 {
                run.stats.see_equal_caps = run.stats.see_equal_caps.wrapping_add(1);
            } else {
                run.stats.see_loss_caps = run.stats.see_loss_caps.wrapping_add(1);
                if move_flags(m) != MF_PROMOTION {
                    i += 1;
                    continue;
                }
                run.stats.see_loss_searched = run.stats.see_loss_searched.wrapping_add(1);
            }
        }
        let undo = board.make_move(m, z);
        let ghost b1 = *board;
        proof {
            assert(made_by(b0, b1, m, *z));
            let s = successor(b0, m, *z);
            assert(made_by(b0, s, m, *z));
            let us = choose|u: UndoInfo| #[trigger] make_post(b0, s, u, m, *z);
            lemma_make_post_unique(b0, b1, undo, s, us, m, *z);
            crate::types::lemma_flip_involution(b0.side);
            lemma_unmake_undoes_make(b0, b1, undo, b0, m, *z);
        }
        if board.is_in_check(board.side.flip()) {
            board.unmake_move(m, &undo, z);
            proof {
                lemma_unmake_undoes_make(b0, b1, undo, *board, m, *z);
            }
            i += 1;
            continue;
        }
        let score = -quiescence(board, q, run, -beta, -a, ply + 1, qs_ply + 1);
        board.unmake_move(m, &undo, z);
        proof {
            lemma_unmake_undoes_make(b0, b1, undo, *board, m, *z);
        }
        if score >= beta {
            proof {
                if !run.stopped {
                    assert(!stopped0);
                    let lm = l0.moves@.subrange(0, l0.count as int);
                    let ls = l0.scores@.subrange(0, l0.count as int);
                    assert(!qs_skips(b0, *q.options, *z, m, a as int, stand_pat as int));
                    assert(qs_captures(b0, *q.tables, *q.options, *z, st, lm, ls, i as int, a as int, beta as int,
                        stand_pat as int, ply as nat, qs_ply as nat) == (score as int, run.stack@));
                }
            }
            return score;
        }
        if score > a {
            a = score;
        }
        i += 1;
    }
    a
}

} // verus!
