use boa::board::Board;
use boa::magic::AttackTables;
use boa::movegen::gen_moves;
use boa::types::{move_flags, move_from, move_from_uci, move_promo_pt, move_to, Color, Move, MF_PROMOTION};
use boa::zobrist::Zobrist;

fn find_legal_move_for_uci(board: &Board, atk: &AttackTables, z: &Zobrist, uci: &str) -> Option<Move> {
    let m = move_from_uci(uci)?;
    let from = move_from(m);
    let to = move_to(m);
    let promo_flag = move_flags(m) == MF_PROMOTION;
    let list = gen_moves(board, atk);
    for &lm in list.iter() {
        if move_from(lm) != from || move_to(lm) != to {
            continue;
        }
        if promo_flag && (move_flags(lm) != MF_PROMOTION || move_promo_pt(lm) != move_promo_pt(m)) {
            continue;
        }
        let mut b = board.clone();
        let _undo = b.make_move(lm, z);
        if !b.is_in_check(b.side.flip()) {
            return Some(lm);
        }
    }
    None
}

#[test]
fn board_consistency_after_problem_position() {
    let mut board =
        Board::from_fen("rnbqkbnr/pppppppp/8/8/8/8/PPPPPPPP/RNBQKBNR w KQkq - 0 1").unwrap();
    assert_eq!(board.verify_consistency(), None, "inconsistent after startpos");

    let z = Zobrist::new();
    let atk = AttackTables::init();
    let moves_str =
        "e2e4 e7e5 g1f3 b8c6 f1b5 g8f6 e1g1 f6e4 d2d4 e5d4 f1e1 f7f5 f3d4 c6d4 d1d4 f8e7 d4g7";
    for m_str in moves_str.split_whitespace() {
        let lm = find_legal_move_for_uci(&board, &atk, &z, m_str)
            .unwrap_or_else(|| panic!("no legal move for {} in {}", m_str, board.to_fen()));
        board.make_move(lm, &z);
        if let Some(err) = board.verify_consistency() {
            panic!("inconsistent after move {}: {}", m_str, err);
        }
    }

    assert!(!board.is_in_check(Color::White), "White should NOT be in check: {}", board.to_fen());
    assert!(!board.is_in_check(Color::Black), "Black should NOT be in check: {}", board.to_fen());
}

#[test]
fn startpos_matches_its_fen() {
    let start = "rnbqkbnr/pppppppp/8/8/8/8/PPPPPPPP/RNBQKBNR w KQkq - 0 1";
    let a = Board::startpos();
    let b = Board::from_fen(start).unwrap();
    assert_eq!(a.to_fen(), start);
    assert_eq!(a.hash, b.hash);
    assert_eq!(a.pawn_hash, b.pawn_hash);
    assert_eq!(a.sq_piece, b.sq_piece);
}

#[test]
fn unmake_restores_board_and_hashes() {
    let atk = AttackTables::init();
    let z = Zobrist::new();
    let board = Board::from_fen("r3k2r/pppq1ppp/2n2n2/3pp3/1bPP4/2N1PN2/PP1B1PPP/R2QKB1R w KQkq d6 0 7").unwrap();
    let list = gen_moves(&board, &atk);
    for &m in list.iter() {
        let mut b = board.clone();
        let undo = b.make_move(m, &z);
        b.unmake_move(m, &undo, &z);
        assert_eq!(b.to_fen(), board.to_fen());
        assert_eq!(b.hash, board.hash);
        assert_eq!(b.pawn_hash, board.pawn_hash);
    }
}

#[test]
fn null_move_round_trip() {
    let z = Zobrist::new();
    let board = Board::from_fen("4k3/8/8/3pP3/8/8/8/4K3 w - d6 0 1").unwrap();
    let mut b = board.clone();
    let undo = b.make_null_move(&z);
    assert_eq!(b.side, Color::Black);
    b.unmake_null_move(&undo);
    assert_eq!(b.hash, board.hash);
    assert_eq!(b.to_fen(), board.to_fen());
}

#[test]
fn verify_consistency_reports_a_missing_bitboard_bit() {
    let mut board = Board::startpos();
    board.pieces[0][0] &= !(1u64 << 8);
    let report = board.verify_consistency().unwrap();
    assert!(report.starts_with("sq=8 sq_piece=0 but pieces[0][0] bit NOT set. fen=rnbqkbnr/"));
}

fn assert_fen_reads_back(fen: &str) {
    let b = Board::from_fen(fen).unwrap();
    let written = b.to_fen();
    let b2 = Board::from_fen(&written).unwrap();
    assert_eq!(b2.sq_piece, b.sq_piece);
    assert_eq!(b2.side, b.side);
    assert_eq!(b2.castling, b.castling);
    assert_eq!(b2.ep_sq, b.ep_sq);
    assert_eq!(b2.halfmove, b.halfmove);
    assert_eq!(b2.fullmove, b.fullmove);
    assert_eq!(b2.hash, b.hash);
    assert_eq!(b2.king_sq, b.king_sq);
    assert_eq!(b2.to_fen(), written);
}

#[test]
fn written_fen_reads_back_as_the_same_position() {
    assert_fen_reads_back("rnbqkbnr/pppppppp/8/8/8/8/PPPPPPPP/RNBQKBNR w KQkq - 0 1");
    assert_fen_reads_back("r3k2r/p1ppqpb1/bn2pnp1/3PN3/1p2P3/2N2Q1p/PPPBBPPP/R3K2R w Kq - 7 42");
    assert_fen_reads_back("rnbqkbnr/ppp1p1pp/8/3pPp2/8/8/PPPP1PPP/RNBQKBNR w KQkq f6 0 3");
    assert_fen_reads_back("8/8/8/8/8/8/8/4K2k b - - 99 65535");
    // A written record is read back, including the en passant square it kept.
    let b = Board::from_fen("rnbqkbnr/ppp1p1pp/8/3pPp2/8/8/PPPP1PPP/RNBQKBNR w KQkq f6 0 3").unwrap();
    assert_eq!(b.to_fen(), "rnbqkbnr/ppp1p1pp/8/3pPp2/8/8/PPPP1PPP/RNBQKBNR w KQkq f6 0 3");
}

#[test]
fn magic_search_builds_a_table_and_advances_the_generator() {
    let mut rng = boa::magic::Rng(0x12345678DEADBEEF);
    let (magic, table) = boa::magic::find_magic(0, true, &mut rng).unwrap();
    let mask = boa::magic::gen_rook_mask(0);
    let bits = mask.count_ones();
    assert_eq!(table.len(), 1usize << bits);
    assert_ne!(rng.0, 0x12345678DEADBEEF);
    // Every occupancy of the mask finds its attacks at its slot.
    let mut sub: u64 = 0;
    loop {
        let idx = (sub.wrapping_mul(magic) >> (64 - bits)) as usize;
        assert_eq!(table[idx], boa::attacks::sliding_attacks_rook(0, sub));
        sub = sub.wrapping_sub(mask) & mask;
        if sub == 0 {
            break;
        }
    }
    // The search is a function of the generator state: the same start gives the same magic.
    let mut again = boa::magic::Rng(0x12345678DEADBEEF);
    assert_eq!(boa::magic::find_magic(0, true, &mut again).unwrap().0, magic);
    assert_eq!(again.0, rng.0);
}

#[test]
fn fen_records_the_king_squares() {
    let b = Board::from_fen("7k/6Q1/6K1/8/8/8/8/8 b - - 0 1").unwrap();
    assert_eq!(b.king_sq, [46, 63]);
    assert!(b.is_in_check(Color::Black));
    assert!(!b.is_in_check(Color::White));
    let no_white_king = Board::from_fen("7k/8/8/8/8/8/8/8 w - - 0 1").unwrap();
    assert_eq!(no_white_king.king_sq, [64, 63]);
    // With two kings of a color, the one read last is recorded.
    let two = Board::from_fen("K6k/8/8/8/8/8/8/K7 w - - 0 1").unwrap();
    assert_eq!(two.king_sq[0], 0);
}

#[test]
fn fen_readability_flags_out_of_range_records() {
    assert!(boa::fen::fen_is_readable("rnbqkbnr/pppppppp/8/8/8/8/PPPPPPPP/RNBQKBNR w KQkq - 0 1"));
    // A ninth file on a rank holding a piece.
    assert!(!boa::fen::fen_is_readable("8p/8/8/8/8/8/8/4K2k w - - 0 1"));
    // An en passant square on the first rank.
    assert!(!boa::fen::fen_is_readable("4k3/8/8/8/8/8/8/4K3 w - a1 0 1"));
    // Too few fields: nothing is read.
    assert!(boa::fen::fen_is_readable("4k3/8/8 w"));
}
