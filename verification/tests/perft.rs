use boa::board::Board;
use boa::magic::AttackTables;
use boa::perft::perft;
use boa::zobrist::Zobrist;

#[test]
fn perft_from_start_position() {
    let atk = AttackTables::init();
    let z = Zobrist::new();
    let mut board = Board::startpos();
    let before = board.to_fen();
    assert_eq!(perft(&mut board, &atk, &z, 1), 20);
    assert_eq!(perft(&mut board, &atk, &z, 2), 400);
    assert_eq!(perft(&mut board, &atk, &z, 3), 8902);
    assert_eq!(board.to_fen(), before);
}

#[test]
fn perft_kiwipete_depth_two() {
    let atk = AttackTables::init();
    let z = Zobrist::new();
    let mut board =
        Board::from_fen("r3k2r/p1ppqpb1/bn2pnp1/3PN3/1p2P3/2N2Q1p/PPPBBPPP/R3K2R w KQkq - 0 1").unwrap();
    assert_eq!(perft(&mut board, &atk, &z, 1), 48);
    assert_eq!(perft(&mut board, &atk, &z, 2), 2039);
}

#[test]
fn magic_lookups_agree_with_ray_walks() {
    let atk = AttackTables::init();
    let mut occ: u64 = 0x9E37_79B9_7F4A_7C15;
    for sq in 0..64u8 {
        for _ in 0..8 {
            occ ^= occ << 13;
            occ ^= occ >> 7;
            occ ^= occ << 17;
            assert_eq!(atk.rook_attacks(sq, occ), boa::attacks::rook_attacks(sq, occ));
            assert_eq!(atk.bishop_attacks(sq, occ), boa::attacks::bishop_attacks(sq, occ));
        }
    }
}

#[test]
fn perft_one_counts_the_legal_moves() {
    let atk = boa::magic::AttackTables::init();
    let z = boa::zobrist::Zobrist::new();
    for fen in [
        "rnbqkbnr/pppppppp/8/8/8/8/PPPPPPPP/RNBQKBNR w KQkq - 0 1",
        "r3k2r/p1ppqpb1/bn2pnp1/3PN3/1p2P3/2N2Q1p/PPPBBPPP/R3K2R w KQkq - 0 1",
        "k7/8/8/8/8/8/1q6/K7 w - - 0 1",
    ] {
        let mut b = boa::board::Board::from_fen(fen).unwrap();
        let side = b.side;
        let legal = boa::diagnostics::legal_moves_for_color(&b, &atk, &z, side).len() as u64;
        assert_eq!(boa::perft::perft(&mut b, &atk, &z, 1), legal);
    }
}
