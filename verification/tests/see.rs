use boa::magic::AttackTables;
use boa::board::Board;
use boa::movegen::gen_moves;
use boa::see::{see, see_ge, static_exchange_eval};
use boa::types::{move_name, Move, PieceType};

fn generated_move(board: &Board, atk: &AttackTables, uci: &str) -> Move {
    let list = gen_moves(board, atk);
    for &m in list.iter() {
        if move_name(m) == uci {
            return m;
        }
    }
    panic!("move {} was not generated in {}", uci, board.to_fen());
}

fn see_for(fen: &str, uci: &str) -> i32 {
    let atk = AttackTables::init();
    let board = Board::from_fen(fen).unwrap();
    let m = generated_move(&board, &atk, uci);
    static_exchange_eval(&board, &atk, m)
}

#[test]
fn see_scores_clean_capture_at_full_victim_value() {
    assert_eq!(
        see_for("4k3/8/8/8/3q4/8/3R4/4K3 w - - 0 1", "d2d4"),
        PieceType::Queen.material_value()
    );
}

#[test]
fn see_scores_profitable_capture_after_recapture() {
    assert_eq!(
        see_for("r2qk3/8/8/8/8/8/8/3RK3 w - - 0 1", "d1d8"),
        PieceType::Queen.material_value() - PieceType::Rook.material_value()
    );
}

#[test]
fn see_rejects_losing_minor_for_pawn_capture() {
    assert_eq!(
        see_for("4k3/5p2/4p3/8/2B5/8/8/4K3 w - - 0 1", "c4e6"),
        PieceType::Pawn.material_value() - PieceType::Bishop.material_value()
    );
}

#[test]
fn see_scores_even_rook_trade_as_zero() {
    assert_eq!(see_for("r2qk3/8/8/8/8/8/8/R3K3 w - - 0 1", "a1a8"), 0);
}

#[test]
fn see_handles_en_passant_captured_pawn_square() {
    assert_eq!(see_for("3rk3/8/8/3pP3/8/8/8/4K3 w - d6 0 1", "e5d6"), 0);
}

#[test]
fn see_includes_promotion_material_gain() {
    assert_eq!(
        see_for("1r2k3/P7/8/8/8/8/8/4K3 w - - 0 1", "a7b8q"),
        PieceType::Rook.material_value() + PieceType::Queen.material_value()
            - PieceType::Pawn.material_value()
    );
}

#[test]
fn quiet_move_has_zero_exchange_value() {
    assert_eq!(see_for("4k3/8/8/8/8/8/3R4/4K3 w - - 0 1", "d2d5"), 0);
}

#[test]
fn occupancy_see_keeps_an_unanswered_capture() {
    let atk = AttackTables::init();
    let board = Board::from_fen("4k3/8/8/8/3q4/8/3R4/4K3 w - - 0 1").unwrap();
    let m = generated_move(&board, &atk, "d2d4");
    assert_eq!(see(&board, &atk, m), 900);
    assert!(see_ge(&board, &atk, m, 900));
    assert!(!see_ge(&board, &atk, m, 901));
    // A quiet move nobody can answer is worth nothing.
    let start = Board::startpos();
    let e4 = generated_move(&start, &atk, "e2e4");
    assert_eq!(see(&start, &atk, e4), 0);
    // A defended target: rook takes a pawn, the pawn takes back.
    let defended = Board::from_fen("4k3/8/2p5/3p4/8/8/3R4/4K3 w - - 0 1").unwrap();
    let rxd5 = generated_move(&defended, &atk, "d2d5");
    assert_eq!(see(&defended, &atk, rxd5), 100 - 500);
}
