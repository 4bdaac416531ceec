use boa::board::Board;
use boa::eval::{passed_pawn_bonuses, PassedPawnContext};
use boa::eval_terms::ROOK_BEHIND_PASSER_BONUS;
use boa::types::{sq_file, sq_rank, Color, Square, BB_FILES, E5};

fn passer_bonus_for(fen: &str, color: Color, sq: Square) -> (i32, i32) {
    let board = Board::from_fen(fen).unwrap();
    let ci = color.index();
    let rank = sq_rank(sq);
    let file = sq_file(sq);
    let file_bb = BB_FILES[file as usize];
    let adj_files = (if file > 0 { BB_FILES[(file - 1) as usize] } else { 0 })
        | (if file < 7 { BB_FILES[(file + 1) as usize] } else { 0 });
    let promo_dist = if color == Color::White { 7 - rank } else { rank };

    let passed = PassedPawnContext {
        sq,
        rank,
        file,
        file_bb,
        adj_files,
        our_pawns: board.pieces[ci][0],
        their_pawns: board.pieces[color.flip().index()][0],
        promo_dist,
    };

    passed_pawn_bonuses(&board, color, passed)
}

#[test]
fn eval_rook_behind_white_passer_is_rewarded() {
    let without_rook = passer_bonus_for("8/8/8/4P3/8/8/8/8 w - - 0 1", Color::White, E5);
    let with_rook = passer_bonus_for("8/8/8/4P3/8/8/8/4R3 w - - 0 1", Color::White, E5);

    assert_eq!(
        (with_rook.0 - without_rook.0, with_rook.1 - without_rook.1),
        ROOK_BEHIND_PASSER_BONUS,
    );
}

#[test]
fn eval_rook_in_front_of_white_passer_is_not_rewarded_as_behind() {
    let bishop_in_front = passer_bonus_for("8/8/4B3/4P3/8/8/8/8 w - - 0 1", Color::White, E5);
    let rook_in_front = passer_bonus_for("8/8/4R3/4P3/8/8/8/8 w - - 0 1", Color::White, E5);

    assert_eq!(rook_in_front, bishop_in_front);
}

#[test]
fn eval_rook_behind_black_passer_is_rewarded() {
    let without_rook = passer_bonus_for("8/8/8/4p3/8/8/8/8 b - - 0 1", Color::Black, E5);
    let with_rook = passer_bonus_for("4r3/8/8/4p3/8/8/8/8 b - - 0 1", Color::Black, E5);

    assert_eq!(
        (with_rook.0 - without_rook.0, with_rook.1 - without_rook.1),
        (-ROOK_BEHIND_PASSER_BONUS.0, -ROOK_BEHIND_PASSER_BONUS.1),
    );
}

#[test]
fn eval_rook_in_front_of_black_passer_is_not_rewarded_as_behind() {
    let bishop_in_front = passer_bonus_for("8/8/8/4p3/4b3/8/8/8 b - - 0 1", Color::Black, E5);
    let rook_in_front = passer_bonus_for("8/8/8/4p3/4r3/8/8/8 b - - 0 1", Color::Black, E5);

    assert_eq!(rook_in_front, bishop_in_front);
}

#[test]
fn tests_rook_behind_white_passer_is_rewarded() {
    let without_rook = passer_bonus_for("8/8/8/4P3/8/8/8/8 w - - 0 1", Color::White, E5);
    let with_rook = passer_bonus_for("8/8/8/4P3/8/8/8/4R3 w - - 0 1", Color::White, E5);

    assert_eq!(
        (with_rook.0 - without_rook.0, with_rook.1 - without_rook.1),
        ROOK_BEHIND_PASSER_BONUS,
    );
}

#[test]
fn tests_rook_in_front_of_white_passer_is_not_rewarded_as_behind() {
    let bishop_in_front = passer_bonus_for("8/8/4B3/4P3/8/8/8/8 w - - 0 1", Color::White, E5);
    let rook_in_front = passer_bonus_for("8/8/4R3/4P3/8/8/8/8 w - - 0 1", Color::White, E5);

    assert_eq!(rook_in_front, bishop_in_front);
}

#[test]
fn tests_rook_behind_black_passer_is_rewarded() {
    let without_rook = passer_bonus_for("8/8/8/4p3/8/8/8/8 b - - 0 1", Color::Black, E5);
    let with_rook = passer_bonus_for("4r3/8/8/4p3/8/8/8/8 b - - 0 1", Color::Black, E5);

    assert_eq!(
        (with_rook.0 - without_rook.0, with_rook.1 - without_rook.1),
        (-ROOK_BEHIND_PASSER_BONUS.0, -ROOK_BEHIND_PASSER_BONUS.1),
    );
}

#[test]
fn tests_rook_in_front_of_black_passer_is_not_rewarded_as_behind() {
    let bishop_in_front = passer_bonus_for("8/8/8/4p3/4b3/8/8/8 b - - 0 1", Color::Black, E5);
    let rook_in_front = passer_bonus_for("8/8/8/4p3/4r3/8/8/8 b - - 0 1", Color::Black, E5);

    assert_eq!(rook_in_front, bishop_in_front);
}

#[test]
fn lone_passer_values_by_advancement_and_clear_path() {
    // e5 pawn for white: advancement 4 -> (20, 40), clear path +(5, 20), no kings.
    assert_eq!(passer_bonus_for("8/8/8/4P3/8/8/8/8 w - - 0 1", Color::White, E5), (25, 60));
    // A blocker ahead removes the clear path bonus.
    assert_eq!(passer_bonus_for("8/8/4n3/4P3/8/8/8/8 w - - 0 1", Color::White, E5), (20, 40));
}

#[test]
fn connected_partner_and_king_proximity_count() {
    // d5 pawn beside e5 with nothing ahead: connected +(10, 20).
    assert_eq!(passer_bonus_for("8/8/8/3PP3/8/8/8/8 w - - 0 1", Color::White, E5), (35, 80));
    // Own king on e4 (distance 1): +3*5; enemy king on a8 (distance 4): +1*5.
    assert_eq!(passer_bonus_for("k7/8/8/4P3/4K3/8/8/8 w - - 0 1", Color::White, E5), (25, 80));
}

fn eval_of(fen: &str) -> boa::eval::EvalBreakdown {
    let atk = boa::magic::AttackTables::init();
    let options = boa::config::EngineOptions::default();
    let ctx = boa::eval::EvalContext { atk: &atk, options: &options };
    let board = Board::from_fen(fen).unwrap();
    boa::eval::evaluate_breakdown(&board, &ctx)
}

#[test]
fn startpos_is_balanced_up_to_tempo() {
    let e = eval_of("rnbqkbnr/pppppppp/8/8/8/8/PPPPPPPP/RNBQKBNR w KQkq - 0 1");
    assert_eq!(e.phase, 256);
    assert_eq!(e.white_score, 0);
    assert_eq!(e.side_to_move_score, 10);
    assert_eq!(e.mobility_white, 20);
    assert_eq!(e.mobility_black, 20);
    assert_eq!(e.material_mg, 0);
}

#[test]
fn evaluate_is_the_side_to_move_score() {
    let atk = boa::magic::AttackTables::init();
    let options = boa::config::EngineOptions::default();
    let ctx = boa::eval::EvalContext { atk: &atk, options: &options };
    let board = Board::from_fen("4k3/8/8/8/8/8/8/3QK3 b - - 0 1").unwrap();
    let e = boa::eval::evaluate_breakdown(&board, &ctx);
    assert_eq!(boa::eval::evaluate(&board, &ctx), e.side_to_move_score);
    assert_eq!(e.side_to_move_score, -e.white_score + 10);
    assert!(e.white_score > 0);
    assert_eq!(e.material_mg, 900);
}

#[test]
fn extra_queen_is_worth_its_material() {
    let e = eval_of("4k3/8/8/8/8/8/8/3QK3 w - - 0 1");
    assert_eq!(e.material_mg, 900);
    assert_eq!(e.material_eg, 900);
    assert_eq!(e.phase, 256 * 900 / 6400);
}

#[test]
fn doubled_and_isolated_pawns_are_penalised() {
    // e3 and e4: both doubled and isolated; e4 is passed, blocked by the king on e8,
    // with both kings four and three steps away.
    let board = Board::from_fen("4k3/8/8/8/4P3/4P3/8/4K3 w - - 0 1").unwrap();
    assert_eq!(boa::eval_pawns::pawn_structure(&board), (-20, -30));
    let single = Board::from_fen("4k3/8/8/8/4P3/8/8/4K3 w - - 0 1").unwrap();
    assert_eq!(boa::eval_pawns::pawn_structure(&single), (0, 10));
}

#[test]
fn pawn_cache_returns_what_was_stored() {
    let mut cache = boa::eval_pawns::PawnEvalCache::new();
    assert_eq!(cache.probe(12345), None);
    cache.store(12345, 7, -3);
    assert_eq!(cache.probe(12345), Some((7, -3)));
    // Another key of the same slot replaces it.
    cache.store(12345 + 1024, 1, 1);
    assert_eq!(cache.probe(12345), None);
    assert_eq!(cache.probe(12345 + 1024), Some((1, 1)));
    // A fresh cache answers the zero key with a zero score.
    let fresh = boa::eval_pawns::PawnEvalCache::new();
    assert_eq!(fresh.probe(0), Some((0, 0)));
}

#[test]
fn backward_pawn_needs_an_attacked_advance_square() {
    // White pawn d2 (sq 11), own pawn on e3 ahead, black pawn on e4 attacks d3.
    let adj = BB_FILES[2] | BB_FILES[4];
    let our = (1u64 << 11) | (1u64 << 20);
    let their_attacks = 1u64 << 19;
    assert!(boa::eval_pawns::is_backward_pawn(Color::White, 11, 1, adj, our, their_attacks));
    // With no attack on d3 it is not backward.
    assert!(!boa::eval_pawns::is_backward_pawn(Color::White, 11, 1, adj, our, 0));
    // A supporting pawn on c1 behind it removes the weakness.
    let supported = our | (1u64 << 2);
    assert!(!boa::eval_pawns::is_backward_pawn(Color::White, 11, 1, adj, supported, their_attacks));
}

#[test]
fn king_shield_counts_in_the_middlegame() {
    let atk = boa::magic::AttackTables::init();
    let options = boa::config::EngineOptions::default();
    let ctx = boa::eval::EvalContext { atk: &atk, options: &options };
    let sheltered = Board::from_fen("6k1/8/8/8/8/8/5PPP/6K1 w - - 0 1").unwrap();
    let bare = Board::from_fen("6k1/8/8/8/8/8/8/6K1 w - - 0 1").unwrap();
    let (smg, _) = boa::eval_activity::king_safety(&sheltered, &ctx);
    let (bmg, _) = boa::eval_activity::king_safety(&bare, &ctx);
    // Three shield pawns cancel the base penalty; the black king has none either way.
    assert_eq!(smg - bmg, 30);
}

#[test]
fn white_score_does_not_depend_on_the_side_to_move() {
    let w = eval_of("r1bqkbnr/pppp1ppp/2n5/4p3/4P3/5N2/PPPP1PPP/RNBQKB1R w KQkq - 2 3");
    let b = eval_of("r1bqkbnr/pppp1ppp/2n5/4p3/4P3/5N2/PPPP1PPP/RNBQKB1R b KQkq - 2 3");
    assert_eq!(w.white_score, b.white_score);
    assert_eq!(w.side_to_move_score, w.white_score + 10);
    assert_eq!(b.side_to_move_score, -b.white_score + 10);
}

#[test]
fn supported_outpost_outscores_unsupported_one() {
    let supported = Board::from_fen("4k3/8/8/4N3/3P4/8/8/4K3 w - - 0 1").unwrap();
    let bare = Board::from_fen("4k3/8/8/4N3/8/8/8/4K3 w - - 0 1").unwrap();
    // e5 is square 36, on an outpost rank for white.
    assert_eq!(boa::eval_activity::outpost_bonus(36, Color::White, 0, &supported), 20);
    assert_eq!(boa::eval_activity::outpost_bonus(36, Color::White, 0, &bare), 10);
    // An enemy pawn attacking the square leaves no outpost.
    assert_eq!(boa::eval_activity::outpost_bonus(36, Color::White, 1u64 << 36, &supported), 0);
    // Off the outpost ranks there is no bonus either.
    assert_eq!(boa::eval_activity::outpost_bonus(12, Color::White, 0, &bare), 0);
}
