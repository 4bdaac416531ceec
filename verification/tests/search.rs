use boa::board::Board;
use boa::config::SearchOptions;
use boa::magic::AttackTables;
use boa::movegen::{gen_captures, gen_moves, gen_quiet_checks};
use boa::search::{
    is_mate_score, mate_in, score_from_tt, score_to_tt, tt_cutoff, Bound, SCORE_MATE,
    build_criticality_record, history_delta, is_improving, is_insufficient_material,
    is_repetition, should_run_criticality_probe, time_for_move, CriticalityRecordInput, Limits,
    OrderingTables, PlyInfo, SearchStats,
};
use boa::search::{
    aspiration_widen, delta_prunes, draw_score, mate_distance_window, new_search_depth,
    null_move_depth, null_move_ok, reverse_futility,
};
use boa::types::{move_from_uci, move_name, Color, MOVE_NONE};

fn limits_with_clock(wtime: i64, winc: i64, moves_to_go: i32) -> Limits {
    let mut l = Limits::default();
    l.wtime = wtime;
    l.winc = winc;
    l.moves_to_go = moves_to_go;
    l
}

#[test]
fn default_limits_and_stats_are_empty() {
    let l = Limits::default();
    assert_eq!(l.max_depth, 64);
    assert_eq!(l.nodes, 0);
    assert_eq!(l.move_time, 0);
    let s = SearchStats::default();
    assert_eq!(s.nodes, 0);
    assert_eq!(s.tb_hits, 0);
    let p = PlyInfo::default();
    assert_eq!(p.current_move, MOVE_NONE);
    assert_eq!(p.static_eval, None);
}

#[test]
fn no_clock_gives_no_budget() {
    assert_eq!(time_for_move(&Limits::default(), Color::White), (0, 0));
    assert_eq!(time_for_move(&limits_with_clock(-5, 0, 0), Color::White), (0, 0));
}

#[test]
fn budget_divides_the_clock_over_the_moves_to_go() {
    // usable 60000 - 30 = 59970; 59970 / 30 + 1000 / 2 = 1999 + 500 = 2499.
    let l = limits_with_clock(60_000, 1_000, 0);
    assert_eq!(time_for_move(&l, Color::White), (2499, 4499));
    // With 10 moves to go: 5997 + 500 = 6497; hard = min(32485, 8497, 59970).
    let l = limits_with_clock(60_000, 1_000, 10);
    assert_eq!(time_for_move(&l, Color::White), (6497, 8497));
}

#[test]
fn budget_never_exceeds_the_usable_clock() {
    // usable is 100 - 30 = 70; the raw budget 70 + 500 is clamped to 70.
    let l = limits_with_clock(100, 1_000, 1);
    assert_eq!(time_for_move(&l, Color::White), (70, 70));
    // A nearly empty clock still gets the minimum move time.
    let l = limits_with_clock(20, 0, 0);
    assert_eq!(time_for_move(&l, Color::White), (10, 10));
}

#[test]
fn black_reads_its_own_clock() {
    let mut l = Limits::default();
    l.btime = 30_000;
    assert_eq!(time_for_move(&l, Color::White), (0, 0));
    // 29970 / 30 = 999.
    assert_eq!(time_for_move(&l, Color::Black), (999, 2999));
}

#[test]
fn repetition_looks_back_only_over_the_halfmove_clock() {
    let mut board = Board::startpos();
    board.hash = 42;
    board.halfmove = 2;
    assert!(is_repetition(&vec![1, 42, 7], &board));
    assert!(!is_repetition(&vec![42, 1, 7], &board));
    board.halfmove = 3;
    assert!(is_repetition(&vec![42, 1, 7], &board));
    assert!(!is_repetition(&vec![], &board));
}

#[test]
fn insufficient_material_cases() {
    assert!(is_insufficient_material(&Board::from_fen("4k3/8/8/8/8/8/8/4K3 w - - 0 1").unwrap()));
    assert!(is_insufficient_material(&Board::from_fen("4k3/8/8/8/8/8/8/3NK3 w - - 0 1").unwrap()));
    assert!(is_insufficient_material(&Board::from_fen("4k3/8/8/8/8/8/8/3BK3 w - - 0 1").unwrap()));
    assert!(!is_insufficient_material(&Board::from_fen("4k3/8/8/8/8/8/8/3RK3 w - - 0 1").unwrap()));
    assert!(!is_insufficient_material(&Board::from_fen("4k3/8/8/8/8/8/8/2NNK3 w - - 0 1").unwrap()));
    assert!(!is_insufficient_material(&Board::startpos()));
}

#[test]
fn improving_compares_two_plies_back() {
    let mut stack = [PlyInfo::default(); 128];
    stack[3].static_eval = Some(20);
    assert!(is_improving(&stack, 21, 5));
    assert!(!is_improving(&stack, 20, 5));
    assert!(!is_improving(&stack, 100, 4));
    assert!(!is_improving(&stack, 100, 1));
}

#[test]
fn killers_shift_and_do_not_duplicate() {
    let mut t = OrderingTables::new();
    let a = move_from_uci("e2e4").unwrap();
    let b = move_from_uci("d2d4").unwrap();
    t.update_killers(3, a);
    assert_eq!((t.killers[6], t.killers[7]), (a, MOVE_NONE));
    t.update_killers(3, b);
    assert_eq!((t.killers[6], t.killers[7]), (b, a));
    t.update_killers(3, b);
    assert_eq!((t.killers[6], t.killers[7]), (b, a));
    // Plies past the table are ignored.
    t.update_killers(500, a);
    assert_eq!((t.killers[6], t.killers[7]), (b, a));
}

#[test]
fn history_is_halved_past_the_threshold() {
    let mut t = OrderingTables::new();
    let m = move_from_uci("g1f3").unwrap();
    // A white knight: piece code 1; entry (0 * 6 + 1) * 64 + 21.
    t.add_history_score(Color::White, 1, m, 400_000);
    assert_eq!(t.history[64 + 21], 400_000);
    t.add_history_score(Color::White, 1, m, 200_000);
    assert_eq!(t.history[64 + 21], 300_000);
    // No piece: nothing changes.
    t.add_history_score(Color::White, 12, m, 5);
    assert_eq!(t.history[64 + 21], 300_000);
    assert_eq!(history_delta(7), 49);
    assert_eq!(history_delta(-3), 9);
}

#[test]
fn quiet_cutoff_updates_killers_history_and_counter() {
    let board = Board::startpos();
    let mut t = OrderingTables::new();
    let mut stack = [PlyInfo::default(); 128];
    let prev = move_from_uci("e7e5").unwrap();
    stack[1].current_move = prev;
    let m = move_from_uci("g1f3").unwrap();
    t.handle_beta_cutoff(&board, m, 2, 4, false, &stack);
    assert_eq!(t.killers[4], m);
    assert_eq!(t.history[64 + 21], 16);
    assert_eq!(t.counter[52 * 64 + 36], m);
}

#[test]
fn capture_cutoff_updates_capture_history_only() {
    let board = Board::from_fen("4k3/8/8/3p4/4P3/8/8/4K3 w - - 0 1").unwrap();
    let mut t = OrderingTables::new();
    let stack = [PlyInfo::default(); 128];
    let m = move_from_uci("e4d5").unwrap();
    t.handle_beta_cutoff(&board, m, 2, 3, true, &stack);
    // White pawn takes a pawn on d5 (square 35): ((0 * 6 + 0) * 64 + 35) * 6 + 0.
    assert_eq!(t.cap_history[35 * 6], 9);
    assert_eq!(t.killers[4], MOVE_NONE);
}

#[test]
fn ordering_puts_hash_move_promotions_and_captures_first() {
    let atk = AttackTables::init();
    let board = Board::from_fen("4k3/P7/8/3p4/4P3/8/8/4K3 w - - 0 1").unwrap();
    let t = OrderingTables::new();
    let stack = [PlyInfo::default(); 128];
    let mut list = gen_moves(&board, &atk);
    let tt_move = move_from_uci("e1d1").unwrap();
    t.score_moves(&board, &mut list, tt_move, 0, &stack);
    for i in 0..list.count {
        let name = move_name(list.moves[i]);
        let score = list.scores[i];
        if name == "e1d1" {
            assert_eq!(score, 2_000_000);
        } else if name == "a7a8q" {
            assert_eq!(score, 1_800_900);
        } else if name == "e4d5" {
            // pawn takes pawn: 100 * 10 - 100.
            assert_eq!(score, 1_000_900);
        } else if name == "e4e5" {
            assert_eq!(score, 0);
        }
    }
}

#[test]
fn capture_scores_add_exchange_values_when_enabled() {
    let atk = AttackTables::init();
    let board = Board::from_fen("4k3/8/2p5/3p4/4P3/8/8/4K3 w - - 0 1").unwrap();
    let t = OrderingTables::new();
    let mut list = gen_captures(&board, &atk);
    let options = SearchOptions {
        threads: 1,
        lazy_smp: true,
        see: true,
        see_qsearch_pruning: true,
        see_capture_ordering: true,
        forward_futility_pruning: true,
    };
    t.score_captures(&board, &atk, &options, &mut list);
    assert_eq!(list.count, 1);
    // exd5 cxd5: the exchange is even, so 0 * 16 + 100 * 10 - 100.
    assert_eq!(list.scores[0], 900);
}

#[test]
fn quiet_checks_come_from_knights_and_sliders() {
    let atk = AttackTables::init();
    let board = Board::from_fen("4k3/8/8/8/8/8/8/R3K1N1 w - - 0 1").unwrap();
    let list = gen_quiet_checks(&board, &atk);
    let mut names: Vec<String> = Vec::new();
    for i in 0..list.count {
        names.push(move_name(list.moves[i]));
    }
    names.sort();
    // No knight square attacks e8; the rook checks from a8, and its own king on e1
    // keeps it off the e-file.
    assert!(names.contains(&"a1a8".to_string()));
    for n in &names {
        assert!(n.starts_with("a1") || n.starts_with("g1"));
    }
}

#[test]
fn criticality_probe_needs_a_failed_low_reduction() {
    assert!(should_run_criticality_probe(false, true, 1, 2, 3, 4, 1, -5, 0, 9, 1000));
    assert!(!should_run_criticality_probe(true, true, 1, 2, 3, 4, 1, -5, 0, 9, 1000));
    assert!(!should_run_criticality_probe(false, false, 1, 2, 3, 4, 1, -5, 0, 9, 1000));
    assert!(!should_run_criticality_probe(false, true, 1, 2, 3, 4, 0, -5, 0, 9, 1000));
    assert!(!should_run_criticality_probe(false, true, 1, 2, 3, 4, 1, 5, 0, 9, 1000));
    assert!(!should_run_criticality_probe(false, true, 1, 2, 3, 4, 1, -5, 0, 9, 0));
}

#[test]
fn criticality_record_copies_its_input() {
    let input = CriticalityRecordInput {
        enabled: true,
        node_hash: 77,
        side_to_move: Color::Black,
        m: 1234,
        ply: 5,
        from: 10,
        to: 20,
        moving_piece: 7,
        depth: 6,
        move_index: 9,
        base_reduction: 2,
        final_reduction: 1,
        new_depth: 4,
        history_score: -30,
        static_eval: 15,
        prev_static_eval: Some(10),
        alpha: -20,
        beta: 20,
        is_pv: false,
        is_cut_node: true,
        improving: true,
        is_killer: false,
        is_counter: true,
        tt_move_agreement: false,
    };
    let r = build_criticality_record(input, true, 99, 3, 4, 8).unwrap();
    assert_eq!(r.pid, 99);
    assert_eq!(r.node_hash, 77);
    assert_eq!(r.root_depth, 8);
    assert_eq!(r.prev_static_eval, Some(10));
    assert_eq!(r.reduced_score, None);
    assert!(build_criticality_record(input, false, 99, 3, 4, 8).is_none());
    let mut off = input;
    off.enabled = false;
    assert!(build_criticality_record(off, true, 99, 3, 4, 8).is_none());
}

#[test]
fn mate_scores_round_trip_through_the_table() {
    let mate_in_three = SCORE_MATE - 5;
    assert!(is_mate_score(mate_in_three));
    assert!(!is_mate_score(250));
    assert_eq!(mate_in(mate_in_three), 3);
    assert_eq!(mate_in(-(SCORE_MATE - 4)), -2);
    // Stored at ply 3 the mate counts from the node, and reads back unchanged.
    assert_eq!(score_to_tt(mate_in_three, 3), SCORE_MATE - 2);
    assert_eq!(score_from_tt(score_to_tt(mate_in_three, 3), 3), mate_in_three);
    assert_eq!(score_from_tt(score_to_tt(-(SCORE_MATE - 9), 7), 7), -(SCORE_MATE - 9));
    assert_eq!(score_to_tt(123, 10), 123);
}

#[test]
fn table_entries_cut_off_only_deep_enough_non_pv_nodes() {
    assert_eq!(tt_cutoff(Bound::Exact, 5, 40, 4, -10, 10, false, 2), Some(40));
    assert_eq!(tt_cutoff(Bound::Exact, 3, 40, 4, -10, 10, false, 2), None);
    assert_eq!(tt_cutoff(Bound::Exact, 5, 40, 4, -10, 10, true, 2), None);
    assert_eq!(tt_cutoff(Bound::Lower, 5, 40, 4, -10, 10, false, 2), Some(40));
    assert_eq!(tt_cutoff(Bound::Lower, 5, 5, 4, -10, 10, false, 2), None);
    assert_eq!(tt_cutoff(Bound::Upper, 5, -20, 4, -10, 10, false, 2), Some(-20));
    assert_eq!(tt_cutoff(Bound::Upper, 5, 5, 4, -10, 10, false, 2), None);
}

#[test]
fn soft_budget_never_exceeds_the_hard_limit() {
    for &(time, inc, mtg) in &[(60_000, 0, 0), (1_000, 5_000, 0), (45, 0, 0), (300_000, 2_000, 40)] {
        let l = limits_with_clock(time, inc, mtg);
        let (soft, hard) = time_for_move(&l, Color::White);
        assert!(soft <= hard);
        if time - 30 > 10 {
            assert!(hard as i64 + 30 <= time);
        }
    }
}

#[test]
fn draw_score_counts_contempt_against_the_root_side() {
    assert_eq!(draw_score(Color::White, Color::White, 20), -20);
    assert_eq!(draw_score(Color::Black, Color::White, 20), 20);
    assert_eq!(draw_score(Color::Black, Color::Black, 0), 0);
}

#[test]
fn mate_distance_window_clamps_to_the_mate_scores() {
    assert_eq!(mate_distance_window(-32000, 32000, 3), (-(SCORE_MATE - 3), SCORE_MATE - 4));
    assert_eq!(mate_distance_window(-50, 70, 3), (-50, 70));
}

#[test]
fn reverse_futility_cuts_shallow_nodes_above_beta() {
    assert_eq!(reverse_futility(2, 500, 250), Some(300));
    assert_eq!(reverse_futility(2, 500, 301), None);
    assert_eq!(reverse_futility(6, 5000, 0), None);
    assert_eq!(reverse_futility(1, SCORE_MATE - 5, 0), None);
}

#[test]
fn null_move_needs_depth_eval_and_a_piece() {
    let start = Board::from_fen("rnbqkbnr/pppppppp/8/8/8/8/PPPPPPPP/RNBQKBNR w KQkq - 0 1").unwrap();
    assert!(null_move_ok(&start, 3, 10, 0));
    assert!(!null_move_ok(&start, 2, 10, 0));
    assert!(!null_move_ok(&start, 3, -1, 0));
    let pawns_only = Board::from_fen("4k3/pppp4/8/8/8/8/PPPP4/4K3 w - - 0 1").unwrap();
    assert!(!null_move_ok(&pawns_only, 8, 10, 0));
    assert_eq!(null_move_depth(8), 3);
    assert_eq!(null_move_depth(3), 0);
}

#[test]
fn reduced_depth_keeps_at_least_one_ply() {
    assert_eq!(new_search_depth(6, 0), 5);
    assert_eq!(new_search_depth(6, 2), 3);
    assert_eq!(new_search_depth(3, 5), 1);
}

#[test]
fn delta_pruning_skips_hopeless_captures() {
    assert!(delta_prunes(true, -500, 100, 0));
    assert!(!delta_prunes(true, -300, 100, 0));
    assert!(!delta_prunes(false, -5000, 0, 0));
}

#[test]
fn aspiration_window_widens_by_doubling_steps() {
    // fail low: beta moves halfway down, alpha drops by 25 << expand
    assert_eq!(aspiration_widen(-40, -25, 25, 0), Some((-50, 0)));
    assert_eq!(aspiration_widen(-40, -25, 25, 2), Some((-125, 0)));
    // fail high: beta rises
    assert_eq!(aspiration_widen(30, -25, 25, 1), Some((-25, 75)));
    // inside the window: done
    assert_eq!(aspiration_widen(0, -25, 25, 3), None);
    // the bounds stop at the score limits
    assert_eq!(aspiration_widen(-31990, -31980, 31990, 10), Some((-32000, 5)));
    assert_eq!(aspiration_widen(-6, -5, -2, 0), Some((-30, -3)));
}

fn generated_search_move(board: &Board, atk: &AttackTables, uci: &str) -> boa::types::Move {
    let list = gen_moves(board, atk);
    for &m in list.iter() {
        if move_name(m) == uci {
            return m;
        }
    }
    panic!("move {} was not generated in {}", uci, board.to_fen());
}

fn history_entry(t: &OrderingTables, color: Color, pt: boa::types::PieceType, to: u8) -> i32 {
    t.history[color.index() * 384 + pt.index() * 64 + to as usize]
}

fn startpos_eval(board: &Board, atk: &AttackTables, options: &boa::config::EngineOptions) -> i32 {
    boa::eval::evaluate(board, &boa::eval::EvalContext { atk, options })
}

#[test]
fn quiet_history_updates_the_moving_side() {
    let atk = AttackTables::init();
    let z = boa::zobrist::Zobrist::new();
    let mut tables = OrderingTables::new();
    let stack = [PlyInfo::default(); 128];
    let mut board = Board::startpos();

    let white_move = generated_search_move(&board, &atk, "e2e4");
    tables.handle_beta_cutoff(&board, white_move, 1, 6, false, &stack);
    let white_pt = boa::types::piece_type(board.sq_piece[boa::types::move_from(white_move) as usize]);
    let white_to = boa::types::move_to(white_move);
    assert!(history_entry(&tables, Color::White, white_pt, white_to) > 0);
    assert_eq!(history_entry(&tables, Color::Black, white_pt, white_to), 0);

    let undo = board.make_move(white_move, &z);
    assert_eq!(board.side, Color::Black);
    let black_move = generated_search_move(&board, &atk, "e7e5");
    let black_pt = boa::types::piece_type(board.sq_piece[boa::types::move_from(black_move) as usize]);
    let black_to = boa::types::move_to(black_move);
    tables.handle_beta_cutoff(&board, black_move, 1, 6, false, &stack);
    assert!(history_entry(&tables, Color::Black, black_pt, black_to) > 0);
    assert_eq!(history_entry(&tables, Color::White, black_pt, black_to), 0);
    board.unmake_move(white_move, &undo, &z);
}

#[test]
fn lmr_history_lookup_after_make_move_uses_the_mover_side() {
    let atk = AttackTables::init();
    let z = boa::zobrist::Zobrist::new();
    let mut tables = OrderingTables::new();
    let mut board = Board::startpos();
    let m = generated_search_move(&board, &atk, "e2e4");
    let moving_piece = board.sq_piece[boa::types::move_from(m) as usize];

    tables.add_history_score(Color::White, moving_piece, m, 1234);
    let undo = board.make_move(m, &z);
    assert_eq!(board.side, Color::Black);

    let mover = board.side.flip();
    let history_score =
        history_entry(&tables, mover, boa::types::piece_type(moving_piece), boa::types::move_to(m));
    assert_eq!(mover, Color::White);
    assert_eq!(history_score, 1234);

    board.unmake_move(m, &undo, &z);
}

#[test]
fn improving_compares_static_eval_two_plies_back() {
    let atk = AttackTables::init();
    let z = boa::zobrist::Zobrist::new();
    let options = boa::config::EngineOptions::default();
    let mut stack = [PlyInfo::default(); 128];
    let mut board = Board::startpos();

    let eval0 = startpos_eval(&board, &atk, &options);
    stack[0].static_eval = Some(eval0);
    assert!(!is_improving(&stack, eval0, 0));
    assert!(!is_improving(&stack, -eval0, 1));

    let null_undo = board.make_null_move(&z);
    let null_eval = startpos_eval(&board, &atk, &options);
    assert_eq!(board.side, Color::Black);
    assert!(!is_improving(&stack, null_eval, 1));
    stack[1].static_eval = Some(null_eval);
    board.unmake_null_move(&null_undo);

    let white_move = generated_search_move(&board, &atk, "e2e4");
    let undo_white = board.make_move(white_move, &z);
    let black_move = generated_search_move(&board, &atk, "e7e5");
    let undo_black = board.make_move(black_move, &z);
    assert_eq!(board.side, Color::White);

    let eval2 = startpos_eval(&board, &atk, &options);
    assert_eq!(is_improving(&stack, eval2, 2), eval2 > eval0);

    board.unmake_move(black_move, &undo_black, &z);
    board.unmake_move(white_move, &undo_white, &z);
}

#[test]
fn fallback_is_the_first_legal_move_or_none() {
    let atk = AttackTables::init();
    let z = boa::zobrist::Zobrist::new();
    let start = Board::startpos();
    let legal = boa::diagnostics::legal_moves_for_color(&start, &atk, &z, Color::White);
    assert_eq!(legal.len(), 20);
    assert_eq!(boa::search::fallback_move(&start, &atk, &z), legal[0]);
    // In check with one way out: the king takes the queen.
    let checked = Board::from_fen("k7/8/8/8/8/8/1q6/K7 w - - 0 1").unwrap();
    assert_eq!(move_name(boa::search::fallback_move(&checked, &atk, &z)), "a1b2");
    let mated = Board::from_fen("7k/6Q1/6K1/8/8/8/8/8 b - - 0 1").unwrap();
    assert_eq!(boa::search::fallback_move(&mated, &atk, &z), MOVE_NONE);
}

#[test]
fn quiet_checks_include_discovered_checks() {
    let atk = AttackTables::init();
    // The bishop on e4 masks the rook on e1 from the king on e8.
    let board = Board::from_fen("4k3/8/8/8/4B3/8/8/4R2K w - - 0 1").unwrap();
    let list = gen_quiet_checks(&board, &atk);
    let mut names: Vec<String> = Vec::new();
    for i in 0..list.count {
        names.push(move_name(list.moves[i]));
    }
    // Be4-d5 uncovers the rook's check; Be4-c6 checks directly as well, and is listed once.
    assert_eq!(names.iter().filter(|n| n.as_str() == "e4d5").count(), 1);
    assert_eq!(names.iter().filter(|n| n.as_str() == "e4c6").count(), 1);
    // The rook and king moves leave the e-file masked.
    assert!(!names.contains(&"h1g1".to_string()));
    // Every listed move is a bishop or rook move to an empty square.
    for n in &names {
        assert!(n.starts_with("e4") || n.starts_with("e1"));
    }
}

#[test]
fn deepening_stops_on_spent_budget_or_mate() {
    assert!(!boa::search::deepening_done(0, 10_000, 50));
    assert!(!boa::search::deepening_done(100, 99, 50));
    assert!(boa::search::deepening_done(100, 100, 50));
    assert!(boa::search::deepening_done(0, 0, SCORE_MATE - 3));
}

#[test]
fn a_stopped_iteration_is_discarded() {
    let a = move_from_uci("e2e4").unwrap();
    let b = move_from_uci("d2d4").unwrap();
    assert_eq!(boa::search::completed_iteration(a, true, 99, Some(b)), None);
    assert_eq!(boa::search::completed_iteration(a, false, 15, Some(b)), Some((b, 15)));
    assert_eq!(boa::search::completed_iteration(a, false, -7, None), Some((a, -7)));
}
