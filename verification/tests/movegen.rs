use boa::board::Board;
use boa::magic::AttackTables;
use boa::movegen::{gen_captures, gen_moves};

#[test]
fn generated_captures_are_generated_moves() {
    let atk = AttackTables::init();
    for fen in [
        "r3k2r/p1ppqpb1/bn2pnp1/3PN3/1p2P3/2N2Q1p/PPPBBPPP/R3K2R w KQkq - 0 1",
        "rnbq1k1r/pp1Pbppp/2p5/8/2B5/8/PPP1NnPP/RNBQK2R w KQ - 1 8",
        "3rk3/8/8/3pP3/8/8/8/4K3 w - d6 0 1",
        "1r2k3/P7/8/8/8/8/8/4K3 w - - 0 1",
        "4k3/8/8/8/8/8/p7/4K3 b - - 0 1",
    ] {
        let board = Board::from_fen(fen).unwrap();
        let caps = gen_captures(&board, &atk);
        let all = gen_moves(&board, &atk);
        assert!(caps.count > 0, "{fen}");
        for i in 0..caps.count {
            let m = caps.moves[i];
            assert!(all.moves[..all.count].contains(&m), "{fen}: {m}");
        }
    }
}
