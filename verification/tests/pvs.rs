use boa::board::Board;
use boa::clock::StopClock;
use boa::config::EngineOptions;
use boa::criticality::CriticalityRecord;
use boa::magic::AttackTables;
use boa::pvs::{alpha_beta, LmrInput, LmrReduction, SearchEnv, SearchHost, SearchNode, TableEntry};
use boa::qsearch::SearchRun;
use boa::search::{Bound, Limits, OrderingTables, PlyInfo, SearchStats, SCORE_MATE};
use boa::types::{Color, Move, Score, SCORE_INF};
use boa::zobrist::Zobrist;
use std::cell::RefCell;
use std::sync::atomic::AtomicBool;

/// A host with an empty table that counts what it is asked.
#[derive(Default)]
struct CountingHost {
    probes: RefCell<u32>,
    stores: RefCell<Vec<(u64, Score, Move, Bound)>>,
    reductions: u32,
    records: u32,
}

impl SearchHost for CountingHost {
    fn probe_table(&self, _hash: u64) -> Option<TableEntry> {
        *self.probes.borrow_mut() += 1;
        None
    }

    fn store_table(&self, hash: u64, score: Score, best: Move, _depth: i8, bound: Bound) {
        self.stores.borrow_mut().push((hash, score, best, bound));
    }

    fn late_move_reduction(&mut self, _input: LmrInput) -> LmrReduction {
        self.reductions += 1;
        LmrReduction { base_reduction: 0, final_reduction: 0 }
    }

    fn write_record(&mut self, _record: &CriticalityRecord) {
        self.records += 1;
    }
}

fn fresh_run() -> SearchRun {
    SearchRun { nodes: 0, stopped: false, stack: [PlyInfo::default(); 128], stats: SearchStats::default() }
}

struct Outcome {
    score: Score,
    board: Board,
    before: Board,
    history: Vec<u64>,
    pv: Vec<Move>,
    run: SearchRun,
    host: CountingHost,
}

fn search_of(fen: &str, depth: i32, ply: usize, history: Vec<u64>, stopped: bool) -> Outcome {
    search_window(fen, -SCORE_INF, SCORE_INF, depth, ply, history, stopped)
}

fn search_window(
    fen: &str,
    alpha: Score,
    beta: Score,
    depth: i32,
    ply: usize,
    history: Vec<u64>,
    stopped: bool,
) -> Outcome {
    let atk = AttackTables::init();
    let z = Zobrist::new();
    let options = EngineOptions::default();
    let limits = Limits::default();
    let stop = AtomicBool::new(false);
    let clock = StopClock { start: std::time::Instant::now(), flag: &stop };
    let before = Board::from_fen(fen).unwrap();
    let env = SearchEnv {
        atk: &atk,
        z: &z,
        options: &options,
        limits: &limits,
        clock: &clock,
        root_color: before.side,
        contempt: 0,
        root_depth: depth.max(1),
        smp_worker_id: 0,
        logging: false,
        pid: 1,
        game_id: 1,
        search_id: 1,
    };
    let mut tables = OrderingTables::new();
    let mut run = fresh_run();
    run.stopped = stopped;
    let mut hist = history;
    let mut host = CountingHost::default();
    let mut board = before;
    let mut pv = Vec::new();
    let node = SearchNode { alpha, beta, depth, ply, is_pv: true };
    let score = alpha_beta(&mut board, &env, &mut tables, &mut run, &mut hist, &mut host, node, false, &mut pv);
    Outcome { score, board, before, history: hist, pv, run, host }
}

#[test]
fn depth_zero_in_check_detects_mate() {
    let out = search_of("7k/6Q1/6K1/8/8/8/8/8 b - - 0 1", 0, 0, Vec::new(), false);
    assert_eq!(out.score, -SCORE_MATE);
}

#[test]
fn alpha_beta_finds_mate_in_one_and_gives_the_board_back() {
    // A back-rank mate: Ra8.
    let out = search_of("6k1/5ppp/8/8/8/8/8/R5K1 w - - 0 1", 2, 0, Vec::new(), false);
    assert_eq!(out.score, SCORE_MATE - 1);
    assert_eq!(out.board.sq_piece, out.before.sq_piece);
    assert_eq!(out.board.hash, out.before.hash);
    assert!(out.history.is_empty());
    assert!(!out.pv.is_empty());
    // The result is stored in the table.
    assert!(!out.host.stores.borrow().is_empty());
}

#[test]
fn alpha_beta_scores_stalemate_as_a_draw() {
    // Black to move has no legal move and is not in check.
    let out = search_of("7k/5Q2/6K1/8/8/8/8/8 b - - 0 1", 1, 1, Vec::new(), false);
    assert_eq!(out.score, 0);
}

#[test]
fn alpha_beta_applies_the_fifty_move_rule_below_the_root() {
    let out = search_of("4k3/8/8/8/8/8/3Q4/4K3 w - - 100 80", 3, 1, Vec::new(), false);
    assert_eq!(out.score, 0);
    assert_eq!(out.run.nodes, 1);
}

#[test]
fn alpha_beta_detects_a_repetition_on_the_path() {
    let board = Board::from_fen("4k3/8/8/8/8/8/3Q4/4K3 w - - 4 20").unwrap();
    let out = search_of("4k3/8/8/8/8/8/3Q4/4K3 w - - 4 20", 3, 2, vec![1, board.hash, 2], false);
    assert_eq!(out.score, 0);
    assert_eq!(out.history, vec![1, board.hash, 2]);
}

#[test]
fn alpha_beta_returns_zero_once_stopped() {
    let out = search_of("4k3/8/8/8/3q4/8/3R4/4K3 w - - 0 1", 3, 0, Vec::new(), true);
    assert_eq!(out.score, 0);
    assert!(out.run.stopped);
    assert_eq!(*out.host.probes.borrow(), 0);
}

#[test]
fn alpha_beta_wins_a_hanging_queen() {
    let out = search_of("4k3/8/8/8/3q4/8/3R4/4K3 w - - 0 1", 2, 0, Vec::new(), false);
    assert!(out.score > 300);
    assert_eq!(out.board.sq_piece, out.before.sq_piece);
    assert_eq!(out.board.side, Color::White);
}

#[test]
fn alpha_beta_prunes_by_mate_distance() {
    // Ten plies from the root no mate can score above SCORE_MATE - 11: a window
    // above that returns its lower bound at once.
    let out = search_window("4k3/8/8/8/3q4/8/3R4/4K3 w - - 0 1", SCORE_MATE - 5, SCORE_MATE - 1, 3, 10, Vec::new(), false);
    assert_eq!(out.score, SCORE_MATE - 5);
    assert_eq!(*out.host.probes.borrow(), 0);
    assert!(out.history.is_empty());
}
