use boa::board::Board;
use boa::config::EngineOptions;
use boa::diagnostics::{
    csv_string, extract_restriction_features, is_passed_pawn, is_pawn_break, legal_moves_for_color,
    RestrictionFeatures,
};
use boa::magic::AttackTables;
use boa::types::{move_from_uci, Color, Square};
use boa::zobrist::Zobrist;

const E4: Square = 28;

fn test_context() -> (AttackTables, Zobrist) {
    (AttackTables::init(), Zobrist::new())
}

fn check_startpos_features_are_symmetric() {
    let (atk, z) = test_context();
    let board = Board::startpos();
    let features = extract_restriction_features(&board, &atk, &z, EngineOptions::default());

    assert_eq!(features.mobility_white, 20);
    assert_eq!(features.mobility_black, 20);
    assert_eq!(features.white_pawn_breaks, features.black_pawn_breaks);
    assert_eq!(
        features.piece_redeployment_white,
        features.piece_redeployment_black
    );
}

fn check_passed_pawn_push_counts_as_pawn_break() {
    let (atk, z) = test_context();
    let board = Board::from_fen("4k3/8/8/3p4/4P3/8/8/4K3 w - - 0 1").unwrap();
    let features = extract_restriction_features(&board, &atk, &z, EngineOptions::default());

    assert!(features.white_pawn_breaks > 0);
}

fn check_csv_row_matches_header_width() {
    let (atk, z) = test_context();
    let board = Board::startpos();
    let features = extract_restriction_features(&board, &atk, &z, EngineOptions::default());

    assert_eq!(
        RestrictionFeatures::csv_header().split(',').count(),
        features.to_csv_row().split(',').count()
    );
}

#[test]
fn diagnostics_startpos_features_are_symmetric_for_raw_mobility() {
    check_startpos_features_are_symmetric();
}

#[test]
fn tests_startpos_features_are_symmetric_for_raw_mobility() {
    check_startpos_features_are_symmetric();
}

#[test]
fn diagnostics_passed_pawn_push_counts_as_pawn_break() {
    check_passed_pawn_push_counts_as_pawn_break();
}

#[test]
fn tests_passed_pawn_push_counts_as_pawn_break() {
    check_passed_pawn_push_counts_as_pawn_break();
}

#[test]
fn diagnostics_csv_row_matches_header_width() {
    check_csv_row_matches_header_width();
}

#[test]
fn tests_csv_row_matches_header_width() {
    check_csv_row_matches_header_width();
}

#[test]
fn startpos_has_twenty_legal_moves_for_each_side() {
    let (atk, z) = test_context();
    let board = Board::startpos();
    assert_eq!(legal_moves_for_color(&board, &atk, &z, Color::White).len(), 20);
    assert_eq!(legal_moves_for_color(&board, &atk, &z, Color::Black).len(), 20);
}

#[test]
fn startpos_row_starts_with_quoted_fen_and_side() {
    let (atk, z) = test_context();
    let board = Board::startpos();
    let features = extract_restriction_features(&board, &atk, &z, EngineOptions::default());
    let row = features.to_csv_row();
    assert!(row.starts_with("\"rnbqkbnr/pppppppp/8/8/8/8/PPPPPPPP/RNBQKBNR w KQkq - 0 1\",w,"));
    assert_eq!(row.split(',').count(), 28);
}

#[test]
fn csv_string_doubles_quotes() {
    assert_eq!(csv_string("a\"b"), "\"a\"\"b\"");
    assert_eq!(csv_string(""), "\"\"");
}

#[test]
fn passed_pawn_detection_sees_adjacent_files() {
    let board = Board::from_fen("4k3/8/8/3p4/4P3/8/8/4K3 w - - 0 1").unwrap();
    // The black pawn on d5 stands ahead of e4 on an adjacent file.
    assert!(!is_passed_pawn(&board, Color::White, E4));
    let lone = Board::from_fen("4k3/8/8/8/4P3/8/8/4K3 w - - 0 1").unwrap();
    assert!(is_passed_pawn(&lone, Color::White, E4));
}

#[test]
fn capture_and_passing_push_are_breaks() {
    let board = Board::from_fen("4k3/8/8/3p4/4P3/8/8/4K3 w - - 0 1").unwrap();
    // exd5 takes and leaves the e-file without white pawns.
    let capture = move_from_uci("e4d5").unwrap();
    assert!(is_pawn_break(&board, Color::White, capture));
    // e5 turns the e-pawn into a passed pawn.
    let push = move_from_uci("e4e5").unwrap();
    assert!(is_pawn_break(&board, Color::White, push));
    // The king's move is no pawn break.
    let king = move_from_uci("e1e2").unwrap();
    assert!(!is_pawn_break(&board, Color::White, king));
}
