use vstd::prelude::*;

use crate::board::{Board, UndoInfo};
use crate::clock::StopClock;
use crate::config::EngineOptions;
use crate::criticality::{CriticalityLabelSource, CriticalityRecord};
use crate::eval::scales_ok;
use crate::magic::AttackTables;
use crate::makemove::{
    lemma_make_post_unique, lemma_unmake_null_undoes_null, lemma_unmake_undoes_make, make_post,
    move_applicable, null_make_post,
};
use crate::movegen::{gen_moves, generable, pseudo_moves};
use crate::diagnostics::legal_moves;
use crate::perft::{king_safe, made_by, successor};
use crate::qsearch::{in_check, list_within, qsearch_ok, quiescence, QContext, SearchRun, QS_BOUND};
use crate::search::{
    build_criticality_record, draw_score, draw_value, mate_window, history_delta, insufficient_material,
    is_improving, is_insufficient_material, is_repetition, mate_distance_window,
    new_search_depth, null_move_depth, null_move_ok, repeats, reverse_futility, score_to_tt,
    should_run_criticality_probe, tt_cutoff, Bound, CriticalityRecordInput, Limits,
    OrderingTables, MAX_PLY, SCORE_MATE,
};
use crate::types::{
    move_flags, move_from, move_to, piece_type, Color, Move, Piece, Score, MF_EN_PASSANT,
    MF_PROMOTION, MOVE_NONE, PIECE_NONE, SCORE_INF,
};
use crate::zobrist::Zobrist;

verus! {

/// Below this depth no move is searched with a reduction.
pub const LMR_MIN_DEPTH: i32 = 3;

/// The first moves of a node are searched at full depth.
pub const LMR_FULL_DEPTH_MOVES: usize = 4;

/// Internal iterative deepening runs from this depth on, without a table move.
pub const IID_MIN_DEPTH: i32 = 5;

/// How much shallower the internal iterative deepening search is.
pub const IID_REDUCTION: i32 = 2;

/// The deepest a search node may be asked for.
pub const SEARCH_DEPTH_LIMIT: i32 = 699;

/// One node of the principal variation search.
#[derive(Clone, Copy)]
pub struct SearchNode {
    pub alpha: Score,
    pub beta: Score,
    pub depth: i32,
    pub ply: usize,
    pub is_pv: bool,
}

/// What the late-move-reduction model reads of a move.
#[derive(Clone, Copy)]
pub struct LmrInput {
    pub moves_searched: usize,
    pub move_index: usize,
    pub ply: usize,
    pub depth: i32,
    pub history_score: i32,
    pub static_eval: Score,
    pub prev_static_eval: Option<Score>,
    pub alpha: Score,
    pub beta: Score,
    pub root_depth: i32,
    pub side_to_move: Color,
    pub moving_piece: Piece,
    pub is_pv: bool,
    pub is_cut_node: bool,
    pub improving: bool,
    pub is_killer: bool,
    pub is_counter: bool,
    pub tt_move_agreement: bool,
    pub is_capture: bool,
    pub is_promo: bool,
    pub gives_check: bool,
    pub in_check: bool,
}

/// The reduction the model proposes, and the one it settles on.
#[derive(Clone, Copy)]
pub struct LmrReduction {
    pub base_reduction: i32,
    pub final_reduction: i32,
}

/// What the transposition table holds for a position.
#[derive(Clone, Copy)]
pub struct TableEntry {
    pub best: Move,
    pub depth: i8,
    pub score: Score,
    pub bound: Bound,
}

/// What the search asks of the program that runs it: the transposition table it
/// shares with other threads, the reduction model, and the log of reduction
/// decisions. Nothing is assumed of the answers.
pub trait SearchHost {
    /// The entry stored for this position hash, if any.
    fn probe_table(&self, hash: u64) -> Option<TableEntry>;

    /// Stores a search result for this position hash.
    fn store_table(&self, hash: u64, score: Score, best: Move, depth: i8, bound: Bound);

    /// The reduction for a quiet late move that passed the integer gates.
    fn late_move_reduction(&mut self, input: LmrInput) -> LmrReduction;

    /// Writes one reduction decision to the log.
    fn write_record(&mut self, record: &CriticalityRecord);
}

/// The fixed things the search reads.
pub struct SearchEnv<'a> {
    pub atk: &'a AttackTables,
    pub z: &'a Zobrist,
    pub options: &'a EngineOptions,
    pub limits: &'a Limits,
    pub clock: &'a StopClock<'a>,
    pub root_color: Color,
    pub contempt: i32,
    pub root_depth: i32,
    pub smp_worker_id: usize,
    pub logging: bool,
    pub pid: u32,
    pub game_id: u64,
    pub search_id: u64,
}

impl<'a> SearchEnv<'a> {
    pub open spec fn wf(&self) -> bool {
        &&& self.atk.wf()
        &&& scales_ok(self.options.eval)
        &&& -SCORE_INF <= self.contempt <= SCORE_INF
        &&& self.root_depth >= 0
    }
}

/// Every position the search can reach from `b` can be searched: it is a
/// consistent board with its kings indexed whose capture search can run, and below
/// the ply limit, unless the fifty-move rule already ends it below the root, its
/// moves fit a move list and can be made, a null move can be made, and so on from
/// each position that follows.
#[verifier::opaque]
pub open spec fn search_ok(b: Board, z: Zobrist, ply: nat) -> bool
    decreases MAX_PLY - ply,
{
    &&& b.consistent()
    &&& b.kings_indexed()
    &&& qsearch_ok(b, z, ply, 0)
    &&& (ply >= MAX_PLY || (ply > 0 && b.halfmove >= 100) || {
        &&& generable(b)
        &&& b.halfmove < 255
        &&& pseudo_moves(b).len() <= 256
        &&& forall|i: int|
            0 <= i < pseudo_moves(b).len() ==> {
                &&& move_applicable(b, #[trigger] pseudo_moves(b)[i])
                &&& search_ok(successor(b, pseudo_moves(b)[i], z), z, ply + 1)
            }
        &&& forall|b1: Board, u: UndoInfo|
            #[trigger] null_make_post(b, b1, u, z) ==> search_ok(b1, z, ply + 1)
    })
}

proof fn lemma_search_ok_unfold(b: Board, z: Zobrist, ply: nat)
    requires
        search_ok(b, z, ply),
    ensures
        b.consistent(),
        b.kings_indexed(),
        qsearch_ok(b, z, ply, 0),
        ply < MAX_PLY && !(ply > 0 && b.halfmove >= 100) ==> {
            &&& generable(b)
            &&& b.halfmove < 255
            &&& pseudo_moves(b).len() <= 256
            &&& forall|i: int|
                0 <= i < pseudo_moves(b).len() ==> {
                    &&& move_applicable(b, #[trigger] pseudo_moves(b)[i])
                    &&& search_ok(successor(b, pseudo_moves(b)[i], z), z, ply + 1)
                }
            &&& forall|b1: Board, u: UndoInfo|
                #[trigger] null_make_post(b, b1, u, z) ==> search_ok(b1, z, ply + 1)
        },
{
    reveal_with_fuel(search_ok, 1);
}

/// The position counts as drawn at a node below the root: fifty moves without a
/// capture or pawn move, material that cannot mate, or a repetition of a position
/// on the path.
pub open spec fn drawn_at(b: Board, history: Seq<u64>) -> bool {
    b.halfmove >= 100 || insufficient_material(b) || repeats(history, b.halfmove as int, b.hash)
}

/// The principal variation search. A node below the root that is drawn scores the
/// draw value; otherwise the window is narrowed by the mate distance, a side in
/// check is never left to the capture search, depth exhausted (or the ply limit
/// reached) drops into the capture search, checks extend the depth, a table entry
/// may cut the node off, internal iterative deepening finds a move to try first, a
/// quiet node may be cut by reverse futility or a null move, and then the moves
/// are searched in order, the first with the full window and the rest with a null
/// window (reduced for late quiet moves) and searched again when they beat alpha.
/// A side with no legal move is mated in check and stalemated otherwise. The result
/// is stored in the table unless this is a shadow probe. Once stopped it returns 0.
/// The board and the path of position hashes are given back as they were. A table
/// entry is used for a cutoff only when its score and the cutoff lie within the
/// scores the search produces; nothing else is assumed of what the host answers.
#[verifier::rlimit(100)]
pub fn alpha_beta<H: SearchHost>(
    board: &mut Board,
    env: &SearchEnv,
    tables: &mut OrderingTables,
    run: &mut SearchRun,
    history: &mut Vec<u64>,
    host: &mut H,
    node: SearchNode,
    in_probe: bool,
    pv: &mut Vec<Move>,
) -> (v: Score)
    requires
        search_ok(*old(board), *env.z, node.ply as nat),
        env.wf(),
        old(tables).wf(),
        -QS_BOUND < node.alpha < QS_BOUND,
        -QS_BOUND < node.beta < QS_BOUND,
        -SEARCH_DEPTH_LIMIT <= node.depth <= SEARCH_DEPTH_LIMIT,
        node.ply <= MAX_PLY,
    ensures
        *final(board) == *old(board),
        final(history)@ == old(history)@,
        final(tables).wf(),
        -QS_BOUND < v < QS_BOUND,
        old(run).stopped ==> final(run).stopped && v == 0,
        !final(run).stopped && node.ply > 0 && drawn_at(*old(board), old(history)@) ==> v
            == draw_value(old(board).side, env.root_color, env.contempt as int),
        !final(run).stopped && !(node.ply > 0 && drawn_at(*old(board), old(history)@)) && mate_window(
            node.alpha as int,
            node.beta as int,
            node.ply as int,
        ).0 >= mate_window(node.alpha as int, node.beta as int, node.ply as int).1 ==> v == mate_window(
            node.alpha as int,
            node.beta as int,
            node.ply as int,
        ).0,
        !final(run).stopped && node.is_pv && node.ply < MAX_PLY && !(node.ply > 0 && drawn_at(
            *old(board),
            old(history)@,
        )) && mate_window(node.alpha as int, node.beta as int, node.ply as int).0 < mate_window(
            node.alpha as int,
            node.beta as int,
            node.ply as int,
        ).1 && (node.depth > 0 || in_check(*old(board))) && legal_moves(*old(board), *env.z, old(board).side).len()
            == 0 ==> v == (if in_check(*old(board)) {
            -(SCORE_MATE - node.ply)
        } else {
            draw_value(old(board).side, env.root_color, env.contempt as int)
        }),
    decreases MAX_PLY - node.ply, if node.depth > 0 {
        node.depth + 1
    } else {
        1int
    },
{
    let alpha = node.alpha;
    let beta = node.beta;
    let depth = node.depth;
    let ply = node.ply;
    let is_pv = node.is_pv;
    let ghost b0 = *board;
    let ghost h0 = history@;
    let z = env.z;
    proof {
        lemma_search_ok_unfold(b0, *z, ply as nat);
    }

    if run.should_stop(env.clock, env.limits) {
        return 0;
    }
    run.nodes = run.nodes.wrapping_add(1);
    run.stats.nodes = run.stats.nodes.wrapping_add(1);

    // Draw detection: fifty moves, insufficient material, repetition.
    if ply > 0 {
        if board.halfmove >= 100 || is_insufficient_material(board) {
            return draw_score(board.side, env.root_color, env.contempt);
        }
        if is_repetition(history, board) {
            return draw_score(board.side, env.root_color, env.contempt);
        }
    }
    // Children and grandchildren see this position on the path.
    history.push(board.hash);

    // Mate distance pruning.
    let (mut alpha, beta) = mate_distance_window(alpha, beta, ply);
    if alpha >= beta {
        history.pop();
        proof {
            assert(history@ =~= h0);
        }
        return alpha;
    }
    let is_cut_node = !is_pv && beta == alpha + 1;
    let in_chk = board.is_in_check(board.side);

    // A side in check cannot stand pat: exhausted depth is searched one more ply.
    let depth = if depth <= 0 && in_chk {
        1
    } else {
        depth
    };
    if depth <= 0 || ply >= MAX_PLY {
        history.pop();
        proof {
            assert(history@ =~= h0);
        }
        let q = QContext {
            atk: env.atk,
            z: env.z,
            options: env.options,
            tables: &*tables,
            limits: env.limits,
            clock: env.clock,
        };
        return quiescence(board, &q, run, alpha, beta, ply, 0);
    }
    // Check extension, capped by the depth of the current iteration.
    let extend = in_chk && depth >= 4 && ply < env.root_depth as usize + 2;
    let depth = if extend {
        depth + 1
    } else {
        depth
    };
    assert(1 <= depth <= SEARCH_DEPTH_LIMIT + 1);

    // Table probe.
    run.stats.tt_probes = run.stats.tt_probes.wrapping_add(1);
    let mut tt_move = MOVE_NONE;
    match host.probe_table(board.hash) {
        Some(entry) => {
            run.stats.tt_hits = run.stats.tt_hits.wrapping_add(1);
            tt_move = entry.best;
            if -QS_BOUND - 2 * (MAX_PLY as i32) <= entry.score && entry.score <= QS_BOUND + 2
                * (MAX_PLY as i32) {
                match tt_cutoff(entry.bound, entry.depth, entry.score, depth, alpha, beta, is_pv, ply) {
                    Some(s) => {
                        if -QS_BOUND < s && s < QS_BOUND {
                            run.stats.tt_cutoffs = run.stats.tt_cutoffs.wrapping_add(1);
                            history.pop();
                            proof {
                                assert(history@ =~= h0);
                            }
                            return s;
                        }
                    },
                    None => {},
                }
            }
        },
        None => {},
    }

    // Internal iterative deepening: a shallower search to find a move to try first.
    if tt_move == MOVE_NONE && depth >= IID_MIN_DEPTH && !in_chk {
        run.stats.iid_triggers = run.stats.iid_triggers.wrapping_add(1);
        let mut iid_pv: Vec<Move> = Vec::new();
        history.pop();
        proof {
            assert(history@ =~= h0);
        }
        alpha_beta(
            board,
            env,
            tables,
            run,
            history,
            host,
            SearchNode { alpha, beta, depth: depth - IID_REDUCTION, ply, is_pv },
            in_probe,
            &mut iid_pv,
        );
        history.push(board.hash);
        match host.probe_table(board.hash) {
            Some(entry) => {
                tt_move = entry.best;
                run.stats.iid_successes = run.stats.iid_successes.wrapping_add(1);
            },
            None => {},
        }
    }
    let ghost h1 = history@;
    assert(h1 == h0.push(b0.hash));

    // Static evaluation for the pruning decisions.
    let static_eval = {
        let q = QContext {
            atk: env.atk,
            z: env.z,
            options: env.options,
            tables: &*tables,
            limits: env.limits,
            clock: env.clock,
        };
        crate::eval::evaluate(board, &crate::eval::EvalContext { atk: q.atk, options: q.options })
    };
    let improving = is_improving(&run.stack, static_eval, ply);
    if ply < MAX_PLY {
        let mut info = run.stack[ply];
        info.static_eval = Some(static_eval);
        run.stack[ply] = info;
    }

    if !in_chk && !is_pv {
        // Reverse futility pruning.
        match reverse_futility(depth, static_eval, beta) {
            Some(cut) => {
                run.stats.rfp_cutoffs = run.stats.rfp_cutoffs.wrapping_add(1);
                history.pop();
                proof {
                    assert(history@ =~= h0);
                }
                return cut;
            },
            None => {},
        }
        // Null move pruning.
        if null_move_ok(board, depth, static_eval, beta) {
            run.stats.null_move_tries = run.stats.null_move_tries.wrapping_add(1);
            let reduced = null_move_depth(depth);
            let undo = board.make_null_move(z);
            let ghost bn = *board;
            proof {
                assert(null_make_post(b0, bn, undo, *z));
            }
            let mut null_pv: Vec<Move> = Vec::new();
            let null_score = alpha_beta(
                board,
                env,
                tables,
                run,
                history,
                host,
                SearchNode { alpha: -beta, beta: -beta + 1, depth: reduced, ply: ply + 1, is_pv: false },
                in_probe,
                &mut null_pv,
            );
            board.unmake_null_move(&undo);
            proof {
                lemma_unmake_null_undoes_null(b0, bn, undo, *board, *z);
            }
            if -null_score >= beta {
                run.stats.null_move_cutoffs = run.stats.null_move_cutoffs.wrapping_add(1);
                history.pop();
                proof {
                    assert(history@ =~= h0);
                }
                return beta;
            }
        }
    }
    let r = search_moves(
        board,
        env,
        tables,
        run,
        history,
        host,
        MoveSearch {
            alpha,
            beta,
            depth,
            ply,
            is_pv,
            is_cut_node,
            in_check: in_chk,
            improving,
            static_eval,
            tt_move,
        },
        in_probe,
        pv,
    );
    history.pop();
    proof {
        assert(history@ =~= h0);
    }
    r
}

/// What the move loop of a node reads.
#[derive(Clone, Copy)]
pub struct MoveSearch {
    pub alpha: Score,
    pub beta: Score,
    pub depth: i32,
    pub ply: usize,
    pub is_pv: bool,
    pub is_cut_node: bool,
    pub in_check: bool,
    pub improving: bool,
    pub static_eval: Score,
    pub tt_move: Move,
}


/// The move loop of a node: the legal moves in move-ordering order, the first with
/// the full window, the rest with a null window at the reduced depth and again at
/// full depth when they beat alpha; a reduced move that does not may be searched
/// again as a shadow probe whose score is only logged. A score at beta or above
/// cuts the loop off and teaches the ordering tables; a quiet move that fails low
/// loses history. A side without legal moves is mated in check and stalemated
/// otherwise. The best score is stored in the table unless this is a shadow probe.
#[verifier::rlimit(100)]
pub fn search_moves<H: SearchHost>(
    board: &mut Board,
    env: &SearchEnv,
    tables: &mut OrderingTables,
    run: &mut SearchRun,
    history: &mut Vec<u64>,
    host: &mut H,
    ms: MoveSearch,
    in_probe: bool,
    pv: &mut Vec<Move>,
) -> (v: Score)
    requires
        search_ok(*old(board), *env.z, ms.ply as nat),
        ms.ply < MAX_PLY,
        env.wf(),
        old(tables).wf(),
        -QS_BOUND < ms.alpha < ms.beta < QS_BOUND,
        1 <= ms.depth <= SEARCH_DEPTH_LIMIT + 1,
        ms.in_check == in_check(*old(board)),
        !(ms.ply > 0 && old(board).halfmove >= 100),
    ensures
        *final(board) == *old(board),
        final(history)@ == old(history)@,
        final(tables).wf(),
        -QS_BOUND < v < QS_BOUND,
        !final(run).stopped && legal_moves(*old(board), *env.z, old(board).side).len() == 0 ==> v == (if ms.in_check {
            -(SCORE_MATE - ms.ply)
        } else {
            draw_value(old(board).side, env.root_color, env.contempt as int)
        }),
    decreases MAX_PLY - ms.ply, 0int,
{
    let ghost b0 = *board;
    let ghost h0 = history@;
    let z = env.z;
    let depth = ms.depth;
    let ply = ms.ply;
    let beta = ms.beta;
    let mut alpha = ms.alpha;
    proof {
        lemma_search_ok_unfold(b0, *z, ply as nat);
    }
    let mut list = gen_moves(board, env.atk);
    let ghost mv = pseudo_moves(b0);
    proof {
        assert forall|j: int| 0 <= j < list.count implies mv.contains(#[trigger] list.moves@[j]) by {
            assert(list.moves@[j] == mv[j]);
        }
        assert forall|j: int| 0 <= j < list.count implies #[trigger] b0.sq_piece[crate::types::from_of(list.moves[j]) as int] < 12 by {
            assert(list.moves@[j] == mv[j]);
            assert(move_applicable(b0, mv[j]));
        }
    }
    tables.score_moves(board, &mut list, ms.tt_move, ply, &run.stack);
    if ply == 0 && env.smp_worker_id > 0 && list.count > 1 {
        let idx = env.smp_worker_id % list.count;
        list.scores[idx] = list.scores[idx].wrapping_add(3_000_000);
    }
    let mut best_move = MOVE_NONE;
    let mut best_score = -SCORE_INF;
    let mut bound = Bound::Upper;
    let mut moves_searched: usize = 0;
    let mut quiet_moves_searched: usize = 0;
    let mut legal_count: usize = 0;
    let mut i: usize = 0;
    while i < list.count
        invariant_except_break
            moves_searched <= i,
            quiet_moves_searched <= i,
            legal_count <= i,
            alpha < beta,
        invariant
            *board == b0,
            b0 == *old(board),
            b0.consistent(),
            b0.kings_indexed(),
            history@ == h0,
            h0 == old(history)@,
            ply == ms.ply,
            ply < MAX_PLY,
            depth == ms.depth,
            1 <= depth <= SEARCH_DEPTH_LIMIT + 1,
            beta == ms.beta,
            env.wf(),
            z == env.z,
            tables.wf(),
            mv == pseudo_moves(b0),
            mv.len() <= 256,
            forall|kk: int|
                0 <= kk < mv.len() ==> move_applicable(b0, #[trigger] mv[kk]) && search_ok(
                    successor(b0, mv[kk], *z),
                    *z,
                    ply as nat + 1,
                ),
            list.wf(),
            list.count == mv.len(),
            list_within(list, mv),
            i <= list.count,
            moves_searched <= list.count,
            quiet_moves_searched <= list.count,
            legal_count <= list.count,
            legal_count > 0 ==> legal_moves(b0, *z, b0.side).len() > 0,
            ms.in_check == in_check(b0),
            -QS_BOUND < alpha < QS_BOUND,
            -QS_BOUND < beta < QS_BOUND,
            -QS_BOUND < best_score < QS_BOUND,
        decreases list.count - i,
    {
        let ghost l0 = list;
        list.pick_best(i);
        proof {
            crate::qsearch::lemma_pick_keeps_within(l0, list, i as int, mv);
        }
        let m = list.moves[i];
        let ghost k = choose|k: int| 0 <= k < mv.len() && mv[k] == m;
        proof {
            assert(mv.contains(m));
            assert(move_applicable(b0, mv[k]));
            assert(search_ok(successor(b0, mv[k], *z), *z, ply as nat + 1));
        }
        let node_hash = board.hash;
        let side_to_move = board.side;
        let from = move_from(m);
        let to = move_to(m);
        let moving_piece = board.sq_piece[from as usize];
        let prev_static_eval = if ply >= 2 {
            run.stack[ply - 2].static_eval
        } else {
            None
        };
        let prev_move = if ply > 0 {
            run.stack[ply - 1].current_move
        } else {
            MOVE_NONE
        };
        let counter_move = if prev_move != MOVE_NONE {
            tables.counter[move_from(prev_move) as usize * 64 + move_to(prev_move) as usize]
        } else {
            MOVE_NONE
        };

        // Make the move; a move that leaves the king attacked is not legal.
        let undo = board.make_move(m, z);
        let ghost b1 = *board;
        proof {
            assert(made_by(b0, b1, m, *z));
            let s = successor(b0, m, *z);
            assert(made_by(b0, s, m, *z));
            let us = choose|u: UndoInfo| #[trigger] make_post(b0, s, u, m, *z);
            lemma_make_post_unique(b0, b1, undo, s, us, m, *z);
            crate::types::lemma_flip_involution(b0.side);
            lemma_unmake_undoes_make(b0, b1, undo, b0, m, *z);
        }
        if board.is_in_check(board.side.flip()) {
            board.unmake_move(m, &undo, z);
            proof {
                lemma_unmake_undoes_make(b0, b1, undo, *board, m, *z);
            }
            i += 1;
            continue;
        }
        proof {
            let pred = |mm: Move| king_safe(successor(b0, mm, *z), b0.side);
            assert(crate::diagnostics::prepared(b0, b0.side) == b0);
            assert(successor(b0, m, *z) == b1);
            assert(pred(mv[k]));
            mv.filter_lemma(pred);
            assert(mv.filter(pred).contains(mv[k]));
        }
        legal_count += 1;

        let is_capture = undo.captured != PIECE_NONE || move_flags(m) == MF_EN_PASSANT;
        let is_promo = move_flags(m) == MF_PROMOTION;
        let gives_check = board.is_in_check(board.side);
        let mover = board.side.flip().index();
        let history_score = tables.history[(mover * 6 + piece_type(moving_piece).index()) * 64
            + to as usize];
        let is_killer = m == tables.killers[ply * 2] || m == tables.killers[ply * 2 + 1];
        let is_counter = m == counter_move;
        let is_lmr_quiet = !is_capture && !is_promo && !gives_check;

        // Late move reductions: the integer gates here, the model with the host.
        let lmr = if quiet_moves_searched < LMR_FULL_DEPTH_MOVES || depth < LMR_MIN_DEPTH || is_capture
            || is_promo || gives_check || ms.in_check {
            LmrReduction { base_reduction: 0, final_reduction: 0 }
        } else {
            run.stats.lmr_attempts = run.stats.lmr_attempts.wrapping_add(1);
            host.late_move_reduction(
                LmrInput {
                    moves_searched: quiet_moves_searched,
                    move_index: moves_searched + 1,
                    ply,
                    depth,
                    history_score,
                    static_eval: ms.static_eval,
                    prev_static_eval,
                    alpha,
                    beta,
                    root_depth: env.root_depth,
                    side_to_move,
                    moving_piece,
                    is_pv: ms.is_pv,
                    is_cut_node: ms.is_cut_node,
                    improving: ms.improving,
                    is_killer,
                    is_counter,
                    tt_move_agreement: m == ms.tt_move,
                    is_capture,
                    is_promo,
                    gives_check,
                    in_check: ms.in_check,
                },
            )
        };
        let reduction = lmr.final_reduction;
        if reduction > 0 {
            run.stats.lmr_actual_reductions = run.stats.lmr_actual_reductions.wrapping_add(1);
        }
        let new_depth = new_search_depth(depth, reduction);
        let pre_alpha = alpha;
        let pre_beta = beta;
        let mut record = build_criticality_record(
            CriticalityRecordInput {
                enabled: reduction > 0 && !in_probe,
                node_hash,
                side_to_move,
                m,
                ply,
                from,
                to,
                moving_piece,
                depth,
                move_index: moves_searched + 1,
                base_reduction: lmr.base_reduction,
                final_reduction: reduction,
                new_depth,
                history_score,
                static_eval: ms.static_eval,
                prev_static_eval,
                alpha: pre_alpha,
                beta: pre_beta,
                is_pv: ms.is_pv,
                is_cut_node: ms.is_cut_node,
                improving: ms.improving,
                is_killer,
                is_counter,
                tt_move_agreement: m == ms.tt_move,
            },
            env.logging,
            env.pid,
            env.game_id,
            env.search_id,
            env.root_depth,
        );

        // Children read the move searched here for the counter-move heuristic.
        let mut info = run.stack[ply];
        info.current_move = m;
        run.stack[ply] = info;

        let mut child_pv: Vec<Move> = Vec::new();
        let score = if moves_searched == 0 {
            -alpha_beta(
                board,
                env,
                tables,
                run,
                history,
                host,
                SearchNode { alpha: -beta, beta: -alpha, depth: depth - 1, ply: ply + 1, is_pv: ms.is_pv },
                in_probe,
                &mut child_pv,
            )
        } else {
            let mut s = -alpha_beta(
                board,
                env,
                tables,
                run,
                history,
                host,
                SearchNode { alpha: -alpha - 1, beta: -alpha, depth: new_depth, ply: ply + 1, is_pv: false },
                in_probe,
                &mut child_pv,
            );
            match record {
                Some(ref mut rec) => {
                    rec.reduced_score = Some(s);
                },
                None => {},
            }
            if !run.stopped && s > alpha && (s < beta || reduction > 0) {
                if reduction > 0 {
                    run.stats.lmr_re_searches = run.stats.lmr_re_searches.wrapping_add(1);
                }
                child_pv.clear();
                s = -alpha_beta(
                    board,
                    env,
                    tables,
                    run,
                    history,
                    host,
                    SearchNode { alpha: -beta, beta: -alpha, depth: depth - 1, ply: ply + 1, is_pv: ms.is_pv },
                    in_probe,
                    &mut child_pv,
                );
                match record {
                    Some(ref mut rec) => {
                        rec.label_source = CriticalityLabelSource::ObservedResearch;
                        rec.full_score = Some(s);
                    },
                    None => {},
                }
            } else if should_run_criticality_probe(
                in_probe,
                env.logging,
                node_hash,
                m,
                depth,
                ply,
                reduction,
                s,
                pre_alpha,
                env.search_id,
                env.options.criticality.probe_permille,
            ) {
                // A shadow search at full depth whose score is only logged; the
                // reduced score and line stay the result.
                let mut probe_pv: Vec<Move> = Vec::new();
                let full_score = -alpha_beta(
                    board,
                    env,
                    tables,
                    run,
                    history,
                    host,
                    SearchNode { alpha: -beta, beta: -alpha, depth: depth - 1, ply: ply + 1, is_pv: ms.is_pv },
                    true,
                    &mut probe_pv,
                );
                if !run.stopped {
                    match record {
                        Some(ref mut rec) => {
                            rec.label_source = CriticalityLabelSource::CounterfactualProbe;
                            rec.full_score = Some(full_score);
                        },
                        None => {},
                    }
                }
            }
            s
        };
        if !run.stopped {
            match record {
                Some(ref rec) => {
                    host.write_record(rec);
                },
                None => {},
            }
        }
        board.unmake_move(m, &undo, z);
        proof {
            lemma_unmake_undoes_make(b0, b1, undo, *board, m, *z);
        }
        moves_searched += 1;
        if is_lmr_quiet {
            quiet_moves_searched += 1;
        }
        if run.stopped {
            return 0;
        }
        if !in_probe && is_lmr_quiet && score <= pre_alpha {
            tables.add_history_score(side_to_move, moving_piece, m, -history_delta(depth));
        }
        if score > best_score {
            best_score = score;
            best_move = m;
            if score > alpha {
                alpha = score;
                bound = Bound::Exact;
                pv.clear();
                pv.push(m);
                pv.extend_from_slice(child_pv.as_slice());
            }
        }
        if score >= beta {
            run.stats.beta_cutoffs = run.stats.beta_cutoffs.wrapping_add(1);
            if moves_searched == 1 {
                run.stats.first_move_cutoffs = run.stats.first_move_cutoffs.wrapping_add(1);
            }
            bound = Bound::Lower;
            if !in_probe {
                tables.handle_beta_cutoff(board, m, ply, depth, is_capture, &run.stack);
            }
            break;
        }
        i += 1;
    }
    // Checkmate or stalemate.
    if legal_count == 0 {
        return if ms.in_check {
            -(SCORE_MATE - ply as Score)
        } else {
            draw_score(board.side, env.root_color, env.contempt)
        };
    }
    // Shadow probes do not seed the table for the real search.
    if !in_probe {
        host.store_table(board.hash, score_to_tt(best_score, ply), best_move, #[verifier::truncate] (depth as i8), bound);
    }
    best_score
}

} // verus!
