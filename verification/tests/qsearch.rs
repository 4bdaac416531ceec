use boa::board::Board;
use boa::clock::StopClock;
use boa::config::EngineOptions;
use boa::magic::AttackTables;
use boa::qsearch::{quiescence, QContext, SearchRun};
use boa::search::{Limits, OrderingTables, PlyInfo, SearchStats, SCORE_MATE};
use boa::types::SCORE_INF;
use boa::zobrist::Zobrist;
use std::sync::atomic::AtomicBool;

fn fresh_run() -> SearchRun {
    SearchRun { nodes: 0, stopped: false, stack: [PlyInfo::default(); 128], stats: SearchStats::default() }
}

fn qsearch_of(fen: &str, alpha: i32, beta: i32) -> (i32, SearchRun, Board, Board) {
    let atk = AttackTables::init();
    let z = Zobrist::new();
    let options = EngineOptions::default();
    let tables = OrderingTables::new();
    let limits = Limits::default();
    let stop = AtomicBool::new(false);
    let clock = StopClock { start: std::time::Instant::now(), flag: &stop };
    let q = QContext { atk: &atk, z: &z, options: &options, tables: &tables, limits: &limits, clock: &clock };
    let mut run = fresh_run();
    let before = Board::from_fen(fen).unwrap();
    let mut board = before;
    let v = quiescence(&mut board, &q, &mut run, alpha, beta, 0, 0);
    (v, run, board, before)
}

#[test]
fn quiescence_reports_checkmate_instead_of_standing_pat() {
    let (score, _, board, before) = qsearch_of("7k/6Q1/6K1/8/8/8/8/8 b - - 0 1", -SCORE_INF, SCORE_INF);
    assert_eq!(score, -SCORE_MATE);
    assert_eq!(board.sq_piece, before.sq_piece);
    assert_eq!(board.hash, before.hash);
}

#[test]
fn quiescence_stands_pat_in_a_quiet_position() {
    // Nothing to capture: the score is the evaluation, within the window.
    let atk = AttackTables::init();
    let options = EngineOptions::default();
    let start = Board::startpos();
    let eval = boa::eval::evaluate(&start, &boa::eval::EvalContext { atk: &atk, options: &options });
    let (score, run, _, _) = qsearch_of("rnbqkbnr/pppppppp/8/8/8/8/PPPPPPPP/RNBQKBNR w KQkq - 0 1", -SCORE_INF, SCORE_INF);
    assert_eq!(score, eval);
    assert_eq!(run.nodes, 1);
}

#[test]
fn quiescence_wins_a_hanging_queen() {
    // White takes the undefended queen: the score is well above the stand pat.
    let (score, _, board, before) = qsearch_of("4k3/8/8/8/3q4/8/3R4/4K3 w - - 0 1", -SCORE_INF, SCORE_INF);
    assert!(score > 300);
    assert_eq!(board.sq_piece, before.sq_piece);
    assert_eq!(board.hash, before.hash);
}

#[test]
fn quiescence_returns_zero_once_stopped() {
    let atk = AttackTables::init();
    let z = Zobrist::new();
    let options = EngineOptions::default();
    let tables = OrderingTables::new();
    let limits = Limits::default();
    let stop = AtomicBool::new(false);
    let clock = StopClock { start: std::time::Instant::now(), flag: &stop };
    let q = QContext { atk: &atk, z: &z, options: &options, tables: &tables, limits: &limits, clock: &clock };
    let mut run = fresh_run();
    run.stopped = true;
    let mut board = Board::from_fen("4k3/8/8/8/3q4/8/3R4/4K3 w - - 0 1").unwrap();
    assert_eq!(quiescence(&mut board, &q, &mut run, -100, 100, 0, 0), 0);
    assert!(run.stopped);
}
